//! An in-memory file that can be opened, closed and read.

use vstd::prelude::*;

verus! {

/// Whether a [`File`] is open or closed.
#[derive(Debug, PartialEq, Eq, Structural, Clone, Copy)]
pub enum FileState {
    Open,
    Closed,
}

impl FileState {
    /// The text the state displays as: `OPEN` or `CLOSED`.
    pub open spec fn display_spec(self) -> Seq<char> {
        match self {
            FileState::Open => "OPEN"@,
            FileState::Closed => "CLOSED"@,
        }
    }

    /// Renders the state as `OPEN` or `CLOSED`.
    pub fn to_display_string(&self) -> (s: String)
        ensures
            s@ == self.display_spec(),
    {
        match self {
            FileState::Open => String::from_str("OPEN"),
            FileState::Closed => String::from_str("CLOSED"),
        }
    }
}

/// A file that lives in memory: a name, its bytes and whether it is open.
#[derive(Debug)]
pub struct File {
    name: String,
    data: Vec<u8>,
    state: FileState,
}

impl File {
    /// The bytes the file holds.
    pub closed spec fn contents(&self) -> Seq<u8> {
        self.data@
    }

    /// The file's name.
    pub closed spec fn name_view(&self) -> Seq<char> {
        self.name@
    }

    /// Whether the file is open or closed.
    pub closed spec fn file_state(&self) -> FileState {
        self.state
    }

    /// A new, empty, closed file with the given name.
    pub fn new(filename: &str) -> (f: Self)
        ensures
            f.name_view() == filename@,
            f.contents() == Seq::<u8>::empty(),
            f.file_state() == FileState::Closed,
    {
        File { name: String::from_str(filename), data: Vec::new(), state: FileState::Closed }
    }

    /// The size of the file in bytes.
    pub fn len(&self) -> (n: usize)
        ensures
            n == self.contents().len(),
    {
        self.data.len()
    }

    /// A copy of the file's name.
    pub fn name(&self) -> (s: String)
        ensures
            s@ == self.name_view(),
    {
        self.name.clone()
    }

    /// Whether the file is open or closed.
    pub fn state(&self) -> (s: FileState)
        ensures
            s == self.file_state(),
    {
        self.state
    }

    /// A new closed file with the given name that holds a copy of `data`.
    pub fn new_with_data(filename: &str, data: &Vec<u8>) -> (f: Self)
        ensures
            f.name_view() == filename@,
            f.contents() == data@,
            f.file_state() == FileState::Closed,
    {
        let mut f = File::new(filename);
        let copy = data.clone();
        assert(copy@ =~= data@);
        f.data = copy;
        f
    }

    /// Marks the file open; always succeeds.
    pub fn open(self) -> (r: Result<Self, String>)
        ensures
            r is Ok,
            r matches Ok(f) ==> f.name_view() == self.name_view() && f.contents() == self.contents()
                && f.file_state() == FileState::Open,
    {
        let mut f = self;
        f.state = FileState::Open;
        Ok(f)
    }

    /// Marks the file closed; always succeeds.
    pub fn close(self) -> (r: Result<Self, String>)
        ensures
            r is Ok,
            r matches Ok(f) ==> f.name_view() == self.name_view() && f.contents() == self.contents()
                && f.file_state() == FileState::Closed,
    {
        let mut f = self;
        f.state = FileState::Closed;
        Ok(f)
    }

    /// Appends the file's bytes to `save_to` and returns how many were added.
    /// A file that is not open is refused and `save_to` is left as it was.
    pub fn read(&mut self, save_to: &mut Vec<u8>) -> (r: Result<usize, String>)
        ensures
            *final(self) == *old(self),
            old(self).file_state() == FileState::Open ==> r == Ok::<usize, String>(
                old(self).contents().len() as usize,
            ) && final(save_to)@ == old(save_to)@ + old(self).contents(),
            old(self).file_state() != FileState::Open ==> r is Err && final(save_to)@ == old(save_to)@
                && r->Err_0@ == read_refused_message(),
    {
        if self.state != FileState::Open {
            return Err(String::from_str("File must be open for reading"));
        }
        let mut tmp = self.data.clone();
        assert(tmp@ =~= self.data@);
        let read_length = tmp.len();
        save_to.reserve(read_length);
        save_to.append(&mut tmp);
        Ok(read_length)
    }
}

impl File {
    /// Renders the file as `<name, (STATE)>`.
    pub fn to_display_string(&self) -> (s: String)
        ensures
            s@ == "<"@ + self.name_view() + ", ("@ + self.file_state().display_spec() + ")>"@,
    {
        let state = self.state.to_display_string();
        let s = String::from_str("<");
        let s = s.concat(self.name.as_str());
        let s = s.concat(", (");
        let s = s.concat(state.as_str());
        s.concat(")>")
    }
}

/// Splits a result into an optional value and a message that is empty for
/// a success.
pub fn optionify_error<T>(maybe: Result<T, String>) -> (r: (Option<T>, String))
    ensures
        maybe matches Ok(v) ==> r.0 == Some(v) && r.1@ == Seq::<char>::empty(),
        maybe matches Err(e) ==> r.0 is None && r.1 == e,
{
    match maybe {
        Ok(definitely) => (Some(definitely), String::new()),
        Err(response) => (None, response),
    }
}

/// The value of a successful result; an error result is outside what this
/// accepts.
pub fn unwrap_with_panic_message<T>(maybe: Result<T, String>) -> (v: T)
    requires
        maybe is Ok,
    ensures
        maybe == Ok::<T, String>(v),
{
    maybe.unwrap()
}

/// The message a read of a file that is not open is refused with.
pub open spec fn read_refused_message() -> Seq<char> {
    "File must be open for reading"@
}

} // verus!
