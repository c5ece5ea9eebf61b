//! The bulk pipeline's decision core: the three input shapes and their
//! parser, fail-fast draining of parsed names, and the admission-control
//! bookkeeping for the render fan-out.

use vstd::prelude::*;
use vstd::string::StrSliceExecFns;
use crate::error::Error;
use crate::names::{CrateName, InvalidCrateName, is_valid_crate_name};

verus! {

/// The bulk subcommand's configuration.
#[derive(Debug)]
pub struct Bulk {
    /// Force overwrite the output.
    pub force: bool,
    /// The number of images to render per second.
    pub rate: u64,
    /// Input specifier: a comma-separated list of crate names, a path to
    /// a file with one name per line, or `-` for standard input.
    pub input: BulkInput,
    /// The path of the folder to which the PNGs should be written.
    pub out_folder: String,
}

/// The three input shapes, decided once at construction.
#[derive(Debug, Clone, Hash, PartialEq, Eq)]
pub enum BulkInput {
    /// Read names from the file at this path, one per line.
    Path(String),
    /// The names were given directly.
    List(Vec<CrateName>),
    /// Read names from standard input, one per line.
    StdIn,
}

impl Default for BulkInput {
    /// Standard input is the default shape.
    fn default() -> (r: Self)
        ensures
            r is StdIn,
    {
        BulkInput::StdIn
    }
}

/// Why one drained input item failed.
#[derive(Debug)]
pub enum BulkInputError {
    /// Reading a line failed, with the I/O failure's text.
    Io(String),
    /// A line was not a valid crate name.
    InvalidCrateName(InvalidCrateName),
}

impl BulkInputError {
    /// The text [`message`](Self::message) returns.
    pub open spec fn spec_message(&self) -> Seq<char> {
        match self {
            BulkInputError::Io(t) => "I/O error: "@ + t@,
            BulkInputError::InvalidCrateName(e) => "Invalid Crate name: "@
                + "Invalid crate name: "@ + e@,
        }
    }

    /// The human-readable account of the failure.
    pub fn message(&self) -> (r: String)
        ensures
            r@ == self.spec_message(),
    {
        match self {
            BulkInputError::Io(t) => {
                let mut r = "I/O error: ".to_owned();
                r.append(t.as_str());
                r
            },
            BulkInputError::InvalidCrateName(e) => {
                let mut r = "Invalid Crate name: ".to_owned();
                let inner = e.message();
                r.append(inner.as_str());
                r
            },
        }
    }
}

/// Error parsing a bulk input specifier: only the empty string is
/// rejected.
#[derive(Debug, PartialEq, Eq)]
pub struct ParseBulkInputError;

impl ParseBulkInputError {
    /// The human-readable account of the failure.
    pub fn message(&self) -> (r: String)
        ensures
            r@
                == "Error parsing bulk input spec. Expecting either a path, a comma-separated list, or '-' (indicating stdin)"@,
    {
        "Error parsing bulk input spec. Expecting either a path, a comma-separated list, or '-' (indicating stdin)".to_owned()
    }
}

/// The pieces of `s` between its commas: `n` commas give `n + 1` pieces,
/// empty pieces included.
pub open spec fn split_commas(s: Seq<char>) -> Seq<Seq<char>>
    decreases s.len(),
{
    if s.len() == 0 {
        seq![Seq::<char>::empty()]
    } else if s.last() == ',' {
        split_commas(s.drop_last()).push(Seq::empty())
    } else {
        let r = split_commas(s.drop_last());
        r.update(r.len() - 1, r.last().push(s.last()))
    }
}

/// Every piece is a valid crate name.
pub open spec fn all_valid_names(ps: Seq<Seq<char>>) -> bool {
    forall|i: int| 0 <= i < ps.len() ==> is_valid_crate_name(#[trigger] ps[i])
}

impl BulkInput {
    /// Decide the input shape from one configuration string: the literal
    /// `-` means standard input; a string whose every comma-separated
    /// piece is a valid crate name is that list; anything else is taken
    /// as a path. Only the empty string is rejected.
    pub fn from_str(s: &str) -> (r: Result<BulkInput, ParseBulkInputError>)
        ensures
            r is Err <==> s@.len() == 0,
            s@ == "-"@ ==> r matches Ok(BulkInput::StdIn),
            s@.len() > 0 && s@ != "-"@ && all_valid_names(split_commas(s@)) ==> (r matches Ok(
                BulkInput::List(l),
            ) && l.deep_view() == split_commas(s@)),
            s@.len() > 0 && s@ != "-"@ && !all_valid_names(split_commas(s@)) ==> (r matches Ok(
                BulkInput::Path(p),
            ) && p@ == s@),
    {
        proof {
            reveal_strlit("-");
        }
        let n = s.unicode_len();
        if n == 0 {
            return Err(ParseBulkInputError);
        }
        if n == 1 && s.get_char(0) == '-' {
            proof {
                reveal_strlit("-");
                assert(s@ =~= "-"@);
            }
            return Ok(BulkInput::StdIn);
        }
        proof {
            reveal_strlit("-");
            assert(s@ != "-"@);
        }
        let mut pieces: Vec<String> = Vec::new();
        let mut cur = String::new();
        let mut i: usize = 0;
        while i < n
            invariant
                n == s@.len(),
                i <= n,
                split_commas(s@.take(i as int)) =~~= pieces.deep_view().push(cur@),
            decreases n - i,
        {
            let c = s.get_char(i);
            proof {
                let pre = s@.take(i as int);
                let ext = s@.take(i + 1);
                assert(ext.drop_last() =~= pre);
                assert(ext.last() == s@[i as int]);
            }
            if c == ',' {
                pieces.push(cur);
                cur = String::new();
            } else {
                let piece = s.substring_char(i, i + 1);
                proof {
                    assert(piece@ =~= seq![s@[i as int]]);
                }
                cur.append(piece);
            }
            proof {
                assert(split_commas(s@.take(i + 1)) =~~= pieces.deep_view().push(cur@));
            }
            i = i + 1;
        }
        proof {
            assert(s@.take(n as int) =~= s@);
        }
        pieces.push(cur);
        let ghost all_pieces = split_commas(s@);
        proof {
            assert(pieces.deep_view() =~~= all_pieces);
        }
        let mut names: Vec<CrateName> = Vec::new();
        let mut k: usize = 0;
        while k < pieces.len()
            invariant
                s@.len() > 0,
                s@ != "-"@,
                all_pieces == split_commas(s@),
                pieces.deep_view() == all_pieces,
                k <= pieces.len(),
                names.len() == k,
                forall|j: int| 0 <= j < k ==> is_valid_crate_name(#[trigger] all_pieces[j]),
                forall|j: int| 0 <= j < k ==> (#[trigger] names@[j])@ == all_pieces[j],
            decreases pieces.len() - k,
        {
            match CrateName::from_str(pieces[k].as_str()) {
                Ok(name) => {
                    names.push(name);
                },
                Err(_) => {
                    proof {
                        assert(!is_valid_crate_name(all_pieces[k as int]));
                    }
                    return Ok(BulkInput::Path(s.to_owned()));
                },
            }
            k = k + 1;
        }
        proof {
            assert(names.deep_view() =~~= all_pieces);
        }
        Ok(BulkInput::List(names))
    }
}

/// How the destination file of one render task is opened.
#[derive(Debug, Clone, Copy, PartialEq, Eq, Structural)]
pub enum OpenMode {
    /// Fail if a file of that name already exists.
    CreateNew,
    /// Truncate an existing file.
    Truncate,
}

impl Bulk {
    /// The file-open decision under the overwrite policy: forcing
    /// truncates an existing file; the default fails when one exists.
    pub fn open_mode(&self) -> (m: OpenMode)
        ensures
            m == (if self.force {
                OpenMode::Truncate
            } else {
                OpenMode::CreateNew
            }),
    {
        if self.force {
            OpenMode::Truncate
        } else {
            OpenMode::CreateNew
        }
    }

    /// The cadence limiter's tick period in microseconds, admitting
    /// `rate` task starts per second.
    pub fn tick_period_micros(&self) -> (r: u64)
        requires
            self.rate > 0,
        ensures
            r == 1_000_000u64 / self.rate,
    {
        1_000_000 / self.rate
    }
}

/// The output file name of one crate's rendered image,
/// `<identifier>.png`.
pub fn image_file_name(name: &CrateName) -> (r: String)
    ensures
        r@ == name@ + ".png"@,
{
    let mut r = name.inner().clone();
    r.append(".png");
    r
}

/// Drain the parsed input items into the list of names to load, failing
/// fast: the first item that failed to parse fails the whole run, before
/// any later item is looked at.
pub fn drain_input(items: Vec<Result<CrateName, BulkInputError>>) -> (r: Result<Vec<String>, Error>)
    ensures
        r is Ok <==> (forall|i: int| 0 <= i < items@.len() ==> items@[i] is Ok),
        r is Ok ==> r->Ok_0@.len() == items@.len() && (forall|i: int|
            0 <= i < items@.len() ==> (#[trigger] r->Ok_0@[i])@ == items@[i]->Ok_0@),
        r is Err ==> exists|i: int|
            {
                &&& 0 <= i < items@.len()
                &&& #[trigger] items@[i] is Err
                &&& (forall|j: int| 0 <= j < i ==> items@[j] is Ok)
                &&& r->Err_0 == Error::BulkInput(items@[i]->Err_0)
            },
{
    let ghost orig = items@;
    let mut rest = items;
    let mut out: Vec<String> = Vec::new();
    while rest.len() > 0
        invariant
            orig == items@,
            out@.len() + rest@.len() == orig.len(),
            rest@ =~= orig.subrange(out@.len() as int, orig.len() as int),
            forall|j: int| 0 <= j < out@.len() ==> orig[j] is Ok,
            forall|j: int| 0 <= j < out@.len() ==> (#[trigger] out@[j])@ == orig[j]->Ok_0@,
        decreases rest@.len(),
    {
        let ghost i = out@.len() as int;
        let item = rest.remove(0);
        proof {
            assert(item == orig[i]);
        }
        match item {
            Ok(name) => {
                out.push(name.into_inner());
            },
            Err(e) => {
                proof {
                    assert(orig[i] is Err);
                }
                return Err(Error::BulkInput(e));
            },
        }
        proof {
            assert(rest@ =~= orig.subrange(out@.len() as int, orig.len() as int));
        }
    }
    Ok(out)
}

/// `true` when every task outcome is a success.
pub open spec fn all_ok(s: Seq<Result<(), Error>>) -> bool {
    forall|i: int| 0 <= i < s.len() ==> s[i] is Ok
}

/// Reduce the collected per-task outcomes, in their completion order, to
/// one pipeline result: success when every task succeeded, else the
/// first failing outcome; later failures are discarded.
pub fn reduce_outcomes(outcomes: Vec<Result<(), Error>>) -> (r: Result<(), Error>)
    ensures
        r is Ok <==> all_ok(outcomes@),
        r is Err ==> exists|i: int|
            {
                &&& 0 <= i < outcomes@.len()
                &&& #[trigger] outcomes@[i] is Err
                &&& (forall|j: int| 0 <= j < i ==> outcomes@[j] is Ok)
                &&& r->Err_0 == outcomes@[i]->Err_0
            },
{
    let ghost orig = outcomes@;
    let mut rest = outcomes;
    let total: usize = rest.len();
    let mut seen: usize = 0;
    while rest.len() > 0
        invariant
            orig == outcomes@,
            orig.len() == total,
            seen + rest@.len() == orig.len(),
            rest@ =~= orig.subrange(seen as int, orig.len() as int),
            forall|j: int| 0 <= j < seen ==> orig[j] is Ok,
        decreases rest@.len(),
    {
        let item = rest.remove(0);
        proof {
            assert(item == orig[seen as int]);
        }
        match item {
            Ok(_) => {
                seen = seen + 1;
            },
            Err(e) => {
                proof {
                    assert(orig[seen as int] is Err);
                    assert(!all_ok(orig));
                }
                return Err(e);
            },
        }
        proof {
            assert(rest@ =~= orig.subrange(seen as int, orig.len() as int));
        }
    }
    Ok(())
}

/// Admission-control bookkeeping for the fan-out: task starts are paced
/// by cadence ticks (at most one start per tick admitted so far) and
/// bounded by a fixed concurrency capacity; completions hand their
/// outcome in, in whatever order they finish.
#[derive(Debug)]
pub struct Dispatcher {
    capacity: usize,
    ticks: u64,
    started: u64,
    in_flight: usize,
    outcomes: Vec<Result<(), Error>>,
}

impl Dispatcher {
    /// The concurrency limiter's capacity.
    pub closed spec fn spec_capacity(&self) -> nat {
        self.capacity as nat
    }

    /// Cadence ticks elapsed so far.
    pub closed spec fn spec_ticks(&self) -> nat {
        self.ticks as nat
    }

    /// Task starts admitted so far.
    pub closed spec fn spec_started(&self) -> nat {
        self.started as nat
    }

    /// Tasks in the acquired-but-not-yet-released state.
    pub closed spec fn spec_in_flight(&self) -> nat {
        self.in_flight as nat
    }

    /// Outcomes handed in so far, in completion order.
    pub closed spec fn spec_outcomes(&self) -> Seq<Result<(), Error>> {
        self.outcomes@
    }

    /// The dispatcher's invariant: starts never outrun the cadence
    /// ticks, the tasks in flight never exceed the capacity, and every
    /// admitted start is either in flight or accounted for by an
    /// outcome.
    pub open spec fn wf(&self) -> bool {
        &&& 1 <= self.spec_capacity()
        &&& self.spec_in_flight() <= self.spec_capacity()
        &&& self.spec_started() <= self.spec_ticks()
        &&& self.spec_outcomes().len() + self.spec_in_flight() == self.spec_started()
    }

    /// A fresh dispatcher: nothing ticked, started or in flight.
    pub fn new(capacity: usize) -> (d: Dispatcher)
        requires
            capacity >= 1,
        ensures
            d.wf(),
            d.spec_capacity() == capacity,
            d.spec_ticks() == 0,
            d.spec_started() == 0,
            d.spec_in_flight() == 0,
            d.spec_outcomes() == Seq::<Result<(), Error>>::empty(),
    {
        let d = Dispatcher {
            capacity,
            ticks: 0,
            started: 0,
            in_flight: 0,
            outcomes: Vec::new(),
        };
        proof {
            assert(d.spec_outcomes() =~= Seq::<Result<(), Error>>::empty());
        }
        d
    }

    /// One tick of the periodic cadence limiter has elapsed.
    pub fn on_tick(&mut self)
        requires
            old(self).wf(),
            old(self).spec_ticks() < u64::MAX,
        ensures
            final(self).wf(),
            final(self).spec_ticks() == old(self).spec_ticks() + 1,
            final(self).spec_capacity() == old(self).spec_capacity(),
            final(self).spec_started() == old(self).spec_started(),
            final(self).spec_in_flight() == old(self).spec_in_flight(),
            final(self).spec_outcomes() == old(self).spec_outcomes(),
    {
        self.ticks = self.ticks + 1;
    }

    /// Whether the two admission controls both admit another start.
    pub fn can_start(&self) -> (b: bool)
        ensures
            b == (self.spec_started() < self.spec_ticks() && self.spec_in_flight()
                < self.spec_capacity()),
    {
        self.started < self.ticks && self.in_flight < self.capacity
    }

    /// Admit one task start: it occupies a concurrency slot and consumes
    /// an elapsed cadence tick.
    pub fn start_task(&mut self)
        requires
            old(self).wf(),
            old(self).spec_started() < old(self).spec_ticks(),
            old(self).spec_in_flight() < old(self).spec_capacity(),
        ensures
            final(self).wf(),
            final(self).spec_capacity() == old(self).spec_capacity(),
            final(self).spec_ticks() == old(self).spec_ticks(),
            final(self).spec_started() == old(self).spec_started() + 1,
            final(self).spec_in_flight() == old(self).spec_in_flight() + 1,
            final(self).spec_outcomes() == old(self).spec_outcomes(),
    {
        self.started = self.started + 1;
        self.in_flight = self.in_flight + 1;
    }

    /// One task finished, successfully or not: it releases its slot and
    /// its outcome is recorded in completion order.
    pub fn complete_task(&mut self, outcome: Result<(), Error>)
        requires
            old(self).wf(),
            old(self).spec_in_flight() >= 1,
        ensures
            final(self).wf(),
            final(self).spec_capacity() == old(self).spec_capacity(),
            final(self).spec_ticks() == old(self).spec_ticks(),
            final(self).spec_started() == old(self).spec_started(),
            final(self).spec_in_flight() == old(self).spec_in_flight() - 1,
            final(self).spec_outcomes() == old(self).spec_outcomes().push(outcome),
    {
        self.in_flight = self.in_flight - 1;
        self.outcomes.push(outcome);
    }

    /// Once every task has completed, reduce the outcomes per
    /// [`reduce_outcomes`].
    pub fn finish(self) -> (r: Result<(), Error>)
        requires
            self.wf(),
            self.spec_in_flight() == 0,
        ensures
            r is Ok <==> all_ok(self.spec_outcomes()),
            r is Err ==> exists|i: int|
                {
                    &&& 0 <= i < self.spec_outcomes().len()
                    &&& #[trigger] self.spec_outcomes()[i] is Err
                    &&& (forall|j: int| 0 <= j < i ==> self.spec_outcomes()[j] is Ok)
                    &&& r->Err_0 == self.spec_outcomes()[i]->Err_0
                },
    {
        reduce_outcomes(self.outcomes)
    }
}

/// Cadence/concurrency bound: in any reachable dispatcher state, no more
/// tasks are simultaneously in the acquired-but-not-released state than
/// the concurrency capacity, and no more task starts have been admitted
/// than cadence ticks have elapsed — so starts are spaced, on average,
/// at least one tick period apart.
pub proof fn lemma_admission_bounds(d: &Dispatcher)
    requires
        d.wf(),
    ensures
        d.spec_in_flight() <= d.spec_capacity(),
        d.spec_started() <= d.spec_ticks(),
{
}

} // verus!
