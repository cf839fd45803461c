//! Routing output lines to one file for each run of equal keys.

use vstd::prelude::*;
use vstd::string::StringExecFns;

verus! {

/// The state of the keyed output: the key whose file is open, if one is.
#[derive(Debug, PartialEq, Eq)]
pub struct KeyedSink {
    pub open_key: Option<String>,
}

/// What is to be done before a line is written.
#[derive(Debug, PartialEq, Eq)]
pub enum SinkAction {
    /// The file of this key is open: the line is appended to it.
    Append,
    /// The file `file_name` is created, or emptied if it exists, and the line
    /// is written to it. Where `close_previous` is true, the file that was open
    /// is flushed and closed first.
    Open { file_name: String, close_previous: bool },
}

/// The key whose file is open.
pub open spec fn key_view(open_key: Option<String>) -> Option<Seq<char>> {
    match open_key {
        Some(key) => Some(key@),
        None => None,
    }
}

/// The name of the file for a key: the key, a dot, and the extension.
pub open spec fn keyed_file_name(key: Seq<char>, extension: Seq<char>) -> Seq<char> {
    key + seq!['.'] + extension
}

impl KeyedSink {
    /// A sink with no file open.
    pub fn new() -> (sink: KeyedSink)
        ensures
            sink.open_key is None,
    {
        KeyedSink { open_key: None }
    }

    /// Decides where the next line goes. A key equal to the one whose file is
    /// open appends to that file. Any other key, also one that had a file
    /// earlier in the run, closes the open file and opens the file of the new
    /// key afresh. Afterwards the file of `key` counts as open.
    pub fn route(&mut self, key: &str, extension: &str) -> (action: SinkAction)
        ensures
            key_view(final(self).open_key) == Some(key@),
            match action {
                SinkAction::Append => key_view(old(self).open_key) == Some(key@),
                SinkAction::Open { file_name, close_previous } => {
                    &&& key_view(old(self).open_key) != Some(key@)
                    &&& file_name@ == keyed_file_name(key@, extension@)
                    &&& close_previous == old(self).open_key is Some
                },
            },
    {
        let wanted = key.to_owned();
        let (same, was_open) = match &self.open_key {
            Some(current) => (*current == wanted, true),
            None => (false, false),
        };
        if same {
            SinkAction::Append
        } else {
            let mut file_name = key.to_owned();
            file_name.push('.');
            file_name.append(extension);
            self.open_key = Some(wanted);
            SinkAction::Open { file_name, close_previous: was_open }
        }
    }

    /// Ends the use of the open file, at the end of the run or after a failed
    /// write. Says whether a file was open, which is then to be flushed and
    /// closed.
    pub fn close(&mut self) -> (was_open: bool)
        ensures
            final(self).open_key is None,
            was_open == old(self).open_key is Some,
    {
        let was_open = self.open_key.is_some();
        self.open_key = None;
        was_open
    }
}

} // verus!
