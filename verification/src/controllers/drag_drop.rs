//! Staging of remote files that are dragged out of a pane.
//!
//! What is dragged is fetched into a private directory first. The amount is bounded: what a listing
//! says of sizes is only a hint, so that the bytes that really arrive are counted too.

use vstd::prelude::*;
use vstd::slice::slice_subrange;

use crate::net::error::NetError;
use crate::net::staging::random_token;
use crate::numerals::{decimal, decimal_reads_back, is_digit, parse_unsigned, to_decimal, unsigned_value};
use crate::pieces::{
    drop_while, find_any, first_of, has_prefix, lemma_first_of, only, starts_with, trim_start_char,
};
use crate::text::{chars_of, plus, string_of};

verus! {

/// How many entries of the temporary directory are looked at.
pub const MAX_SCANNED_ENTRIES: usize = 512;

/// How many names are tried for a private directory.
pub const MAX_ROOT_ATTEMPTS: usize = 16;

// --- private directories -----------------------------------------------------------------------

pub open spec fn root_name(pid: u32, nonce: u64) -> Seq<char> {
    "gmacftp-drag-"@ + decimal(pid as nat) + "-"@ + decimal(nonce as nat)
}

/// The process that a private directory belongs to, by its name.
pub open spec fn root_owner(name: Seq<char>) -> Option<u32> {
    if !has_prefix(name, "gmacftp-drag-"@) {
        None
    } else {
        let tail = name.skip(13);
        let cut = first_of(tail, seq!['-']);
        if cut + 1 < tail.len() {
            match unsigned_value(tail.take(cut), u32::MAX as nat) {
                Some(pid) => Some(pid as u32),
                None => None,
            }
        } else {
            None
        }
    }
}

/// The name of a private directory of this process. A number that nobody can foresee sets it apart.
pub fn drag_root_name(pid: u32) -> (r: String)
    ensures
        exists|nonce: u64| r@ == #[trigger] root_name(pid, nonce),
{
    let token: u128 = random_token();
    let nonce: u64 = (token % 0x1_0000_0000_0000_0000) as u64;
    let owner: String = string_of(&to_decimal(pid as u64));
    let number: String = string_of(&to_decimal(nonce));
    let name: String = plus(
        plus(plus("gmacftp-drag-".to_owned(), owner.as_str()), "-"),
        number.as_str(),
    );
    assert(name@ == root_name(pid, nonce));
    name
}

pub fn drag_root_owner(name: &str) -> (r: Option<u32>)
    ensures
        r == root_owner(name@),
{
    let chars: Vec<char> = chars_of(name);
    let prefix: Vec<char> = chars_of("gmacftp-drag-");
    proof {
        reveal_strlit("gmacftp-drag-");
    }
    if !starts_with(&chars, &prefix) {
        return None;
    }
    let tail: &[char] = slice_subrange(chars.as_slice(), 13, chars.len());
    assert(tail@ =~= name@.skip(13));
    let dash: [char; 1] = ['-'];
    assert(dash@ =~= seq!['-']);
    let cut: usize = find_any(tail, dash.as_slice());
    if cut >= tail.len() || cut + 1 >= tail.len() {
        return None;
    }
    let pid: &[char] = slice_subrange(tail, 0, cut);
    assert(pid@ =~= tail@.take(cut as int));
    match parse_unsigned(pid, u32::MAX as u64) {
        Some(n) => Some(n as u32),
        None => None,
    }
}

/// A private directory is removed only where it is a real directory whose process is gone.
pub fn is_abandoned(name: &str, owner_is_running: bool, is_real_directory: bool) -> (r: bool)
    ensures
        r == (root_owner(name@) is Some && !owner_is_running && is_real_directory),
{
    drag_root_owner(name).is_some() && !owner_is_running && is_real_directory
}

/// The name of a private directory names its owner.
pub proof fn root_names_read_back(pid: u32, nonce: u64)
    ensures
        root_owner(root_name(pid, nonce)) == Some(pid),
{
    reveal_strlit("gmacftp-drag-");
    reveal_strlit("-");
    let name = root_name(pid, nonce);
    let owner = decimal(pid as nat);
    let number = decimal(nonce as nat);
    decimal_reads_back(pid as nat);
    decimal_reads_back(nonce as nat);
    let tail = owner + "-"@ + number;
    assert(name =~= "gmacftp-drag-"@ + tail);
    assert(name.take(13) =~= "gmacftp-drag-"@);
    assert(name.skip(13) =~= tail);
    let n = owner.len() as int;
    let dash = seq!['-'];
    assert forall|i: int| 0 <= i < n implies !dash.contains(#[trigger] tail[i]) by {
        assert(tail[i] == owner[i]);
        assert(is_digit(owner[i]));
    }
    assert(tail[n] == '-');
    assert(dash[0] == '-');
    lemma_first_of(tail, dash, n);
    assert(tail.take(n) =~= owner);
}

/// What came of an attempt to make a private directory.
#[derive(Debug, PartialEq, Eq)]
pub enum RootAttempt {
    Created,
    /// It was created but could not be made private, and is removed again.
    NotSecured(String),
    /// Something of that name is there already.
    Exists,
    Failed(String),
}

/// What follows an attempt.
#[derive(Debug, PartialEq, Eq)]
pub enum RootStep {
    Ready,
    TryAgain,
    /// Give up; a directory that was created is removed.
    GiveUp(String),
}

/// What follows the attempt with this number, counted from 1.
pub fn after_root_attempt(attempt: RootAttempt, number: usize) -> (r: RootStep)
    ensures
        match attempt {
            RootAttempt::Created => r == RootStep::Ready,
            RootAttempt::NotSecured(e) => r matches RootStep::GiveUp(t) && t@
                == "could not secure drag staging directory: "@ + e@,
            RootAttempt::Exists => if number < MAX_ROOT_ATTEMPTS {
                r == RootStep::TryAgain
            } else {
                r matches RootStep::GiveUp(t) && t@
                    == "could not allocate a unique drag staging directory"@
            },
            RootAttempt::Failed(e) => r matches RootStep::GiveUp(t) && t@
                == "could not create drag staging directory: "@ + e@,
        },
{
    match attempt {
        RootAttempt::Created => RootStep::Ready,
        RootAttempt::NotSecured(e) => RootStep::GiveUp(
            plus("could not secure drag staging directory: ".to_owned(), e.as_str()),
        ),
        RootAttempt::Exists => if number < MAX_ROOT_ATTEMPTS {
            RootStep::TryAgain
        } else {
            RootStep::GiveUp("could not allocate a unique drag staging directory".to_owned())
        },
        RootAttempt::Failed(e) => RootStep::GiveUp(
            plus("could not create drag staging directory: ".to_owned(), e.as_str()),
        ),
    }
}

// --- the budget --------------------------------------------------------------------------------

/// How much may be staged; the number of bytes also in words.
#[derive(Debug, PartialEq, Eq)]
pub struct DragLimits {
    pub max_files: usize,
    pub max_bytes: u64,
    pub max_bytes_text: String,
}

impl Clone for DragLimits {
    fn clone(&self) -> (r: Self)
        ensures
            r == *self,
    {
        DragLimits {
            max_files: self.max_files,
            max_bytes: self.max_bytes,
            max_bytes_text: self.max_bytes_text.clone(),
        }
    }
}

pub open spec fn too_large(limits: DragLimits) -> Seq<char> {
    "drag staging is limited to "@ + limits.max_bytes_text@ + "; use the transfer queue instead"@
}

pub open spec fn budget_refusal(files: int, bytes: int, limits: DragLimits) -> Option<Seq<char>> {
    if files > limits.max_files {
        Some(
            "drag staging is limited to "@ + decimal(limits.max_files as nat)
                + " files; use the transfer queue instead"@,
        )
    } else if bytes > limits.max_bytes {
        Some(too_large(limits))
    } else {
        None
    }
}

fn too_large_text(limits: &DragLimits) -> (r: String)
    ensures
        r@ == too_large(*limits),
{
    plus(
        plus("drag staging is limited to ".to_owned(), limits.max_bytes_text.as_str()),
        "; use the transfer queue instead",
    )
}

pub fn validate_drag_budget(files: usize, bytes: u64, limits: &DragLimits) -> (r: Result<(), String>)
    ensures
        r is Ok <==> budget_refusal(files as int, bytes as int, *limits) is None,
        r matches Err(e) ==> budget_refusal(files as int, bytes as int, *limits) == Some(e@),
{
    if files > limits.max_files {
        let number: String = string_of(&to_decimal(limits.max_files as u64));
        return Err(
            plus(
                plus("drag staging is limited to ".to_owned(), number.as_str()),
                " files; use the transfer queue instead",
            ),
        );
    }
    if bytes > limits.max_bytes {
        return Err(too_large_text(limits));
    }
    Ok(())
}

/// A download is cancelled as soon as more has arrived than it may bring.
pub fn exceeds(done: u64, max_bytes: u64) -> (r: bool)
    ensures
        r == (done > max_bytes),
{
    done > max_bytes
}

/// What a bounded download came to.
pub fn bounded_download_result(
    result: &Result<u64, NetError>,
    max_bytes: u64,
    limits: &DragLimits,
) -> (r: Result<u64, String>)
    ensures
        match *result {
            Ok(bytes) => if bytes <= max_bytes {
                r == Ok::<u64, String>(bytes)
            } else {
                r matches Err(e) && e@ == too_large(*limits)
            },
            Err(NetError::Cancelled) => r matches Err(e) && e@ == too_large(*limits),
            Err(error) => r matches Err(e) && e@ == error.text(),
        },
{
    match result {
        Ok(bytes) => {
            if *bytes <= max_bytes {
                Ok(*bytes)
            } else {
                Err(too_large_text(limits))
            }
        },
        Err(NetError::Cancelled) => Err(too_large_text(limits)),
        Err(error) => Err(error.message()),
    }
}

// --- staging a folder --------------------------------------------------------------------------

/// The path of a file below the folder that is dragged.
pub open spec fn relative_path(file: Seq<char>, folder: Seq<char>) -> Seq<char> {
    let rest = if has_prefix(file, folder) {
        file.skip(folder.len() as int)
    } else {
        file
    };
    drop_while(rest, only('/'))
}

fn relative_to(file: &str, folder: &str) -> (r: String)
    ensures
        r@ == relative_path(file@, folder@),
{
    let chars: Vec<char> = chars_of(file);
    let prefix: Vec<char> = chars_of(folder);
    let rest: &[char] = if starts_with(&chars, &prefix) {
        let tail: &[char] = slice_subrange(chars.as_slice(), prefix.len(), chars.len());
        assert(tail@ =~= file@.skip(folder@.len() as int));
        tail
    } else {
        chars.as_slice()
    };
    string_of(trim_start_char(rest, '/'))
}

pub open spec fn advertised(files: Seq<(String, u64)>) -> nat
    decreases files.len(),
{
    if files.len() == 0 {
        0
    } else {
        advertised(files.drop_last()) + files.last().1 as nat
    }
}

proof fn lemma_advertised_grows(files: Seq<(String, u64)>, n: int)
    requires
        0 <= n <= files.len(),
    ensures
        advertised(files.take(n)) <= advertised(files),
    decreases files.len() - n,
{
    if n < files.len() {
        lemma_advertised_grows(files.drop_last(), n);
        assert(files.drop_last().take(n) =~= files.take(n));
    } else {
        assert(files.take(n) =~= files);
    }
}

/// One folder that is staged, file by file.
#[derive(Debug, PartialEq, Eq)]
pub struct DragFolder {
    pub folder: String,
    pub files: Vec<(String, u64)>,
    /// How many files have been fetched.
    pub fetched: usize,
    pub actual_bytes: u64,
    pub limits: DragLimits,
}

/// What is fetched next.
#[derive(Debug, PartialEq, Eq)]
pub enum DragStep {
    /// Fetch a file to a place below the private directory, which is checked once more; no more than
    /// so many bytes.
    Fetch { remote: String, relative: String, max_bytes: u64 },
    Done,
}

impl DragFolder {
    /// No more has been fetched than may be.
    pub open spec fn wf(&self) -> bool {
        &&& self.fetched <= self.files@.len() <= self.limits.max_files
        &&& self.actual_bytes <= self.limits.max_bytes
    }

    /// The run after a file has brought so many bytes: one that breaks the budget does not count.
    pub open spec fn after_fetch(self, bytes: u64) -> DragFolder {
        if self.actual_bytes + bytes <= self.limits.max_bytes {
            DragFolder {
                fetched: (self.fetched + 1) as usize,
                actual_bytes: (self.actual_bytes + bytes) as u64,
                ..self
            }
        } else {
            self
        }
    }

    /// The run after several files.
    pub open spec fn after_fetches(self, sizes: Seq<u64>) -> DragFolder
        decreases sizes.len(),
    {
        if sizes.len() == 0 {
            self
        } else {
            self.after_fetches(sizes.drop_last()).after_fetch(sizes.last())
        }
    }

    /// Each file keeps to what it may bring.
    pub open spec fn keep_to_the_budget(self, sizes: Seq<u64>) -> bool {
        forall|i: int|
            0 <= i < sizes.len() ==> #[trigger] sizes[i] <= self.limits.max_bytes
                - self.after_fetches(sizes.take(i)).actual_bytes
    }

    /// Start with the files of a folder; what the listing says of them must be within the budget.
    #[verifier::loop_isolation(false)]
    pub fn new(folder: String, files: Vec<(String, u64)>, limits: DragLimits) -> (r: Result<
        DragFolder,
        String,
    >)
        ensures
            match r {
                Ok(run) => run.wf() && run.folder == folder && run.files == files && run.limits
                    == limits && run.fetched == 0 && run.actual_bytes == 0 && budget_refusal(
                    files@.len() as int,
                    advertised(files@) as int,
                    limits,
                ) is None,
                Err(e) => if advertised(files@) > u64::MAX {
                    e@ == "drag staging size overflow"@
                } else {
                    budget_refusal(files@.len() as int, advertised(files@) as int, limits) == Some(
                        e@,
                    )
                },
            },
    {
        let mut total: u64 = 0;
        let mut i: usize = 0;
        while i < files.len()
            invariant
                i <= files@.len(),
                total == advertised(files@.take(i as int)),
            decreases files@.len() - i,
        {
            assert(files@.take(i + 1).drop_last() =~= files@.take(i as int));
            assert(files@.take(i + 1).last() == files@[i as int]);
            proof {
                lemma_advertised_grows(files@, i + 1);
            }
            total = match total.checked_add(files[i].1) {
                Some(sum) => sum,
                None => {
                    return Err("drag staging size overflow".to_owned());
                },
            };
            i += 1;
        }
        assert(files@.take(files@.len() as int) =~= files@);
        match validate_drag_budget(files.len(), total, &limits) {
            Ok(()) => {},
            Err(error) => {
                return Err(error);
            },
        }
        Ok(DragFolder { folder, files, fetched: 0, actual_bytes: 0, limits })
    }

    /// What is fetched next: it may bring only what is left of the budget.
    pub fn step(&self) -> (r: DragStep)
        requires
            self.wf(),
        ensures
            if self.fetched < self.files@.len() {
                r matches DragStep::Fetch { remote, relative, max_bytes } && remote@
                    == self.files@[self.fetched as int].0@ && relative@ == relative_path(
                    remote@,
                    self.folder@,
                ) && max_bytes == self.limits.max_bytes - self.actual_bytes
            } else {
                r == DragStep::Done
            },
    {
        if self.fetched < self.files.len() {
            let remote: String = self.files[self.fetched].0.clone();
            let relative: String = relative_to(remote.as_str(), self.folder.as_str());
            DragStep::Fetch {
                remote,
                relative,
                max_bytes: self.limits.max_bytes - self.actual_bytes,
            }
        } else {
            DragStep::Done
        }
    }

    /// A file has arrived, with so many bytes.
    pub fn fetched(&mut self, bytes: u64) -> (r: Result<(), String>)
        requires
            old(self).wf(),
            old(self).fetched < old(self).files@.len(),
        ensures
            final(self).wf(),
            *final(self) == old(self).after_fetch(bytes),
            r is Ok <==> old(self).actual_bytes + bytes <= old(self).limits.max_bytes,
            r matches Err(e) ==> e@ == if old(self).actual_bytes + bytes > u64::MAX {
                "drag staging size overflow"@
            } else {
                too_large(old(self).limits)
            },
    {
        let total: u64 = match self.actual_bytes.checked_add(bytes) {
            Some(total) => total,
            None => {
                return Err("drag staging size overflow".to_owned());
            },
        };
        match validate_drag_budget(0, total, &self.limits) {
            Ok(()) => {},
            Err(error) => {
                return Err(error);
            },
        }
        self.actual_bytes = total;
        self.fetched = self.fetched + 1;
        Ok(())
    }
}

/// How much the files bring together.
pub open spec fn total_bytes(sizes: Seq<u64>) -> nat
    decreases sizes.len(),
{
    if sizes.len() == 0 {
        0
    } else {
        total_bytes(sizes.drop_last()) + sizes.last() as nat
    }
}

/// Whatever the listing said and however much arrives, no more than the limit is ever staged; and
/// where each file keeps to what it may bring, all of them are.
pub proof fn staging_is_bounded(run: DragFolder, sizes: Seq<u64>)
    requires
        run.wf(),
        run.fetched + sizes.len() <= run.files@.len(),
    ensures
        ({
            let after = run.after_fetches(sizes);
            &&& after.wf()
            &&& after.limits == run.limits && after.files == run.files
            &&& run.fetched <= after.fetched <= run.fetched + sizes.len()
            &&& after.actual_bytes <= run.limits.max_bytes
            &&& after.actual_bytes <= run.actual_bytes + total_bytes(sizes)
            &&& run.keep_to_the_budget(sizes) ==> after.fetched == run.fetched + sizes.len()
                && after.actual_bytes == run.actual_bytes + total_bytes(sizes)
        }),
    decreases sizes.len(),
{
    if sizes.len() > 0 {
        let front = sizes.drop_last();
        staging_is_bounded(run, front);
        if run.keep_to_the_budget(sizes) {
            assert forall|i: int| 0 <= i < front.len() implies #[trigger] front[i]
                <= run.limits.max_bytes - run.after_fetches(front.take(i)).actual_bytes by {
                assert(front[i] == sizes[i]);
                assert(front.take(i) =~= sizes.take(i));
            }
            assert(sizes.take(sizes.len() - 1) =~= front);
            assert(sizes[sizes.len() - 1] == sizes.last());
        }
    }
}

} // verus!
