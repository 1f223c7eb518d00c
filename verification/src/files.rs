//! Choosing files to open and saving files.
//!
//! A request to choose files names a key (which request the answer is
//! for); the answer arrives later and is queued until the runtime takes it
//! and hands it to the application. Cancelling and "this platform cannot
//! choose files" are different answers, so an application can tell the
//! user which one happened. Tests deliver answers directly, since the
//! system dialogs cannot be opened headless.

use vstd::prelude::*;

verus! {

/// One chosen file.
#[derive(Clone, Debug, PartialEq)]
pub struct PickedFile {
    /// Name for display (not a path: the web has none).
    pub name: String,
    /// The contents.
    pub bytes: Vec<u8>,
}

/// The answer to a request to choose files.
#[derive(Clone, Debug, PartialEq)]
pub enum PickResult {
    /// One or more files were chosen.
    Picked(Vec<PickedFile>),
    /// The user closed the dialog.
    Cancelled,
    /// This platform has no way to choose files.
    Unsupported,
}

/// What may be chosen.
#[derive(Clone, Debug, Default, PartialEq)]
pub struct PickOptions {
    /// Accepted extensions with their dot (`".db"`); empty accepts all.
    pub accept: Vec<String>,
    /// Several files may be chosen.
    pub multiple: bool,
}

impl PickOptions {
    /// Any file, one at a time.
    pub fn new() -> (o: Self)
        ensures
            o.accept@.len() == 0,
            !o.multiple,
    {
        PickOptions { accept: Vec::new(), multiple: false }
    }

    /// Accept only these extensions (replacing earlier ones).
    pub fn accept(self, exts: &[&str]) -> (o: Self)
        ensures
            o.accept@.len() == exts@.len(),
            forall|i: int| 0 <= i < exts@.len() ==> #[trigger] o.accept@[i]@ == exts@[i]@,
            o.multiple == self.multiple,
    {
        let mut accept: Vec<String> = Vec::new();
        let mut i: usize = 0;
        while i < exts.len()
            invariant
                i <= exts@.len(),
                accept@.len() == i,
                forall|j: int| 0 <= j < i ==> #[trigger] accept@[j]@ == exts@[j]@,
            decreases exts@.len() - i,
        {
            accept.push(exts[i].to_owned());
            i += 1;
        }
        PickOptions { accept, multiple: self.multiple }
    }

    /// Allow several files.
    pub fn multiple(self) -> (o: Self)
        ensures
            o.multiple,
            o.accept == self.accept,
    {
        PickOptions { accept: self.accept, multiple: true }
    }
}

/// Answers waiting to be taken by the runtime.
pub struct FileInbox {
    results: Vec<(String, PickResult)>,
}

impl FileInbox {
    /// The waiting answers, oldest first.
    pub closed spec fn results(&self) -> Seq<(String, PickResult)> {
        self.results@
    }

    /// No answer waiting.
    pub fn new() -> (i: Self)
        ensures
            i.results() == Seq::<(String, PickResult)>::empty(),
    {
        FileInbox { results: Vec::new() }
    }

    /// Queues the answer for the request `key`.
    pub fn deliver(&mut self, key: String, result: PickResult)
        ensures
            final(self).results() == old(self).results().push((key, result)),
    {
        self.results.push((key, result));
    }

    /// Takes every waiting answer, oldest first; none is handed out twice.
    pub fn take_results(&mut self) -> (out: Vec<(String, PickResult)>)
        ensures
            out@ == old(self).results(),
            final(self).results() == Seq::<(String, PickResult)>::empty(),
    {
        let mut out: Vec<(String, PickResult)> = Vec::new();
        std::mem::swap(&mut out, &mut self.results);
        out
    }
}

/// Delivers an answer as if the dialog had produced it (for tests, which
/// cannot open the system dialog).
pub fn test_deliver(inbox: &mut FileInbox, key: &str, result: PickResult)
    ensures
        final(inbox).results().len() == old(inbox).results().len() + 1,
        final(inbox).results().subrange(0, old(inbox).results().len() as int) == old(inbox).results(),
        final(inbox).results().last().0@ == key@,
        final(inbox).results().last().1 == result,
{
    let k = key.to_owned();
    inbox.deliver(k, result);
    assert(inbox.results().subrange(0, old(inbox).results().len() as int) =~= old(inbox).results());
}

} // verus!
