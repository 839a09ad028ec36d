//! A file transfer as the front end shows it.

use vstd::prelude::*;
use crate::text::{owned, push_decimal};
use vstd::string::StringExecFns;

verus! {

/// Where a transfer stands, as the user sees it.
#[derive(Clone, Copy, Debug, PartialEq, Eq, Structural)]
pub enum FileTransferStatus {
    Pending,
    InProgress,
    Completed,
    Failed,
    Cancelled,
    Declined,
}

/// One transfer on screen.
#[derive(Debug)]
pub struct FileTransferDialog {
    pub transfer_id: u64,
    pub file_name: String,
    pub file_size: u64,
    pub sender_id: Option<u64>,
    pub recipient_id: Option<u64>,
    pub progress: u32,
    pub status: FileTransferStatus,
}

/// The colour of the dialog's border.
#[derive(Clone, Copy, Debug, PartialEq, Eq, Structural)]
pub enum Accent {
    Green,
    Red,
    Cyan,
}

impl FileTransferDialog {
    /// The heading: who the file comes from or goes to.
    pub open spec fn spec_title(&self) -> Seq<char> {
        match (self.sender_id, self.recipient_id) {
            (Some(sender), _) => "Incoming file from User "@ + crate::text::decimal(sender as nat),
            (None, Some(recipient)) => "Outgoing file to User "@ + crate::text::decimal(
                recipient as nat,
            ),
            (None, None) => "File Transfer"@,
        }
    }

    pub fn title(&self) -> (s: String)
        ensures
            s@ == self.spec_title(),
    {
        match (self.sender_id, self.recipient_id) {
            (Some(sender), _) => {
                let mut s = owned("Incoming file from User ");
                push_decimal(&mut s, sender as u128);
                s
            },
            (None, Some(recipient)) => {
                let mut s = owned("Outgoing file to User ");
                push_decimal(&mut s, recipient as u128);
                s
            },
            (None, None) => owned("File Transfer"),
        }
    }

    /// The progress shown: at most 100 percent.
    pub fn shown_progress(&self) -> (percent: u16)
        ensures
            percent == (if self.progress < 100 {
                self.progress
            } else {
                100
            }),
    {
        if self.progress < 100 {
            self.progress as u16
        } else {
            100
        }
    }

    /// The label of the progress bar.
    pub fn progress_label(&self) -> (s: String)
        ensures
            s@ == crate::text::decimal(
                (if self.progress < 100 {
                    self.progress
                } else {
                    100
                }) as nat,
            ) + "%"@,
    {
        let mut s = String::new();
        push_decimal(&mut s, self.shown_progress() as u128);
        s.append("%");
        s
    }

    /// Green once the transfer is complete, red once it failed, cyan
    /// otherwise.
    pub fn accent(&self) -> (colour: Accent)
        ensures
            colour == (match self.status {
                FileTransferStatus::Completed => Accent::Green,
                FileTransferStatus::Failed => Accent::Red,
                _ => Accent::Cyan,
            }),
    {
        match self.status {
            FileTransferStatus::Completed => Accent::Green,
            FileTransferStatus::Failed => Accent::Red,
            _ => Accent::Cyan,
        }
    }
}

} // verus!
