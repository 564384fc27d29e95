//! How much memory the process holds.
use vstd::prelude::*;
use vstd::string::*;
use crate::digits::{parse_u64, parsed};
use crate::text::{chars_of, is_white_space, views, white_space};

verus! {

/// Seconds between samples.
pub const REPORT_INTERVAL_SECS: u64 = 15;

/// Samples between summaries.
pub const LOG_EVERY_TICKS: u32 = 20;

/// What the allocator tells, in bytes.
#[derive(Clone, Copy, Debug, PartialEq, Eq, Structural)]
pub struct JemallocStats {
    /// Held by the program.
    pub allocated: u64,
    /// In the pages behind what is held.
    pub active: u64,
    /// In the pages kept in memory.
    pub resident: u64,
    /// Of address space that is mapped.
    pub mapped: u64,
    /// Of address space that is kept after its use.
    pub retained: u64,
    /// For the bookkeeping of the allocator.
    pub metadata: u64,
}

impl Default for JemallocStats {
    fn default() -> (r: Self)
        ensures
            r == (JemallocStats {
                allocated: 0,
                active: 0,
                resident: 0,
                mapped: 0,
                retained: 0,
                metadata: 0,
            }),
    {
        JemallocStats { allocated: 0, active: 0, resident: 0, mapped: 0, retained: 0, metadata: 0 }
    }
}

/// Whether the allocator may tell these numbers when it is read: what is allocated, active,
/// resident, mapped, retained and for bookkeeping.
pub uninterp spec fn allocator_tells(numbers: Option<[u64; 6]>) -> bool;

/// `tikv_jemalloc_ctl::epoch::advance` renews the statistics of the allocator, and
/// `tikv_jemalloc_ctl::stats` reads them: what is allocated, active, resident, mapped, retained and
/// for bookkeeping. They depend on the process, and another thread may renew them between two
/// reads, so no order between them is claimed; that they are one of the outcomes is all that is.
#[verifier::external_body]
fn read_allocator() -> (r: Option<[u64; 6]>)
    ensures
        allocator_tells(r),
{
    tikv_jemalloc_ctl::epoch::advance().ok()?;
    Some([
        tikv_jemalloc_ctl::stats::allocated::read().ok()? as u64,
        tikv_jemalloc_ctl::stats::active::read().ok()? as u64,
        tikv_jemalloc_ctl::stats::resident::read().ok()? as u64,
        tikv_jemalloc_ctl::stats::mapped::read().ok()? as u64,
        tikv_jemalloc_ctl::stats::retained::read().ok()? as u64,
        tikv_jemalloc_ctl::stats::metadata::read().ok()? as u64,
    ])
}

/// The statistics that six numbers stand for.
pub open spec fn stats_from(numbers: Option<[u64; 6]>) -> Option<JemallocStats> {
    match numbers {
        Some(n) => Some(
            JemallocStats {
                allocated: n@[0],
                active: n@[1],
                resident: n@[2],
                mapped: n@[3],
                retained: n@[4],
                metadata: n@[5],
            },
        ),
        None => None,
    }
}

/// The statistics that six numbers stand for.
pub fn stats_of(numbers: Option<[u64; 6]>) -> (r: Option<JemallocStats>)
    ensures
        r == stats_from(numbers),
{
    match numbers {
        Some(n) => Some(
            JemallocStats {
                allocated: n[0],
                active: n[1],
                resident: n[2],
                mapped: n[3],
                retained: n[4],
                metadata: n[5],
            },
        ),
        None => None,
    }
}

/// What the allocator tells, if it does.
pub fn jemalloc_stats() -> (r: Option<JemallocStats>)
    ensures
        exists|numbers: Option<[u64; 6]>| #[trigger]
            allocator_tells(numbers) && r == stats_from(numbers),
{
    let numbers = read_allocator();
    stats_of(numbers)
}

/// The words of a text and the characters after its last space, taken from the left.
pub open spec fn words_and_rest(s: Seq<char>) -> (Seq<Seq<char>>, Seq<char>)
    decreases s.len(),
{
    if s.len() == 0 {
        (Seq::empty(), Seq::empty())
    } else {
        let (done, rest) = words_and_rest(s.drop_last());
        if is_white_space(s.last()) {
            if rest.len() > 0 {
                (done.push(rest), Seq::empty())
            } else {
                (done, rest)
            }
        } else {
            (done, rest.push(s.last()))
        }
    }
}

/// The words of a text: what stands between its white space.
pub open spec fn words(s: Seq<char>) -> Seq<Seq<char>> {
    let (done, rest) = words_and_rest(s);
    if rest.len() > 0 {
        done.push(rest)
    } else {
        done
    }
}

/// The words of a text, as `str::split_whitespace` gives them.
pub fn split_whitespace(s: &str) -> (r: Vec<String>)
    ensures
        views(r@) == words(s@),
{
    let cs = chars_of(s);
    let mut done: Vec<String> = Vec::new();
    let mut rest = String::new();
    let mut i: usize = 0;
    proof {
        assert(s@.take(0) =~= Seq::<char>::empty());
        assert(views(done@) =~= Seq::<Seq<char>>::empty());
        assert(rest@ =~= Seq::<char>::empty());
    }
    while i < cs.len()
        invariant
            i <= cs@.len(),
            cs@ == s@,
            (views(done@), rest@) == words_and_rest(s@.take(i as int)),
        decreases cs@.len() - i,
    {
        proof {
            assert(s@.take(i + 1).drop_last() =~= s@.take(i as int));
            assert(s@.take(i + 1).last() == cs@[i as int]);
        }
        let c = cs[i];
        if white_space(c) {
            if !rest.as_str().is_empty() {
                let ghost before = views(done@);
                let ghost word = rest@;
                done.push(rest);
                rest = String::new();
                proof {
                    assert(views(done@) =~= before.push(word));
                    assert(rest@ =~= Seq::<char>::empty());
                }
            }
        } else {
            rest.push(c);
        }
        i = i + 1;
    }
    proof {
        assert(s@.take(i as int) =~= s@);
    }
    if !rest.as_str().is_empty() {
        let ghost before = views(done@);
        let ghost word = rest@;
        done.push(rest);
        proof {
            assert(views(done@) =~= before.push(word));
        }
    }
    done
}

/// The bytes of a page: those told, or 4096 where none are.
pub open spec fn page_bytes(page_size: i64) -> int {
    if page_size > 0 {
        page_size as int
    } else {
        4096
    }
}

/// The number of pages in memory, the second word of what the kernel tells.
pub open spec fn resident_pages(statm: Seq<char>) -> Option<nat> {
    if words(statm).len() > 1 {
        match parsed(words(statm)[1], 10) {
            Some(n) => if n <= u64::MAX {
                Some(n)
            } else {
                None
            },
            None => None,
        }
    } else {
        None
    }
}

/// The bytes of the process in memory, out of what the kernel tells of its pages.
pub fn resident_set_bytes(statm: &str, page_size: i64) -> (r: Option<u64>)
    requires
        resident_pages(statm@) matches Some(n) ==> n * page_bytes(page_size) <= u64::MAX,
    ensures
        match r {
            Some(b) => resident_pages(statm@) is Some && b == resident_pages(statm@)->0 * page_bytes(
                page_size,
            ),
            None => resident_pages(statm@) is None,
        },
{
    let w = split_whitespace(statm);
    if w.len() < 2 {
        return None;
    }
    proof {
        assert(views(w@)[1] == w@[1]@);
    }
    match parse_u64(&w[1], 10) {
        Some(n) => {
            let page: u64 = if page_size > 0 {
                page_size as u64
            } else {
                4096
            };
            Some(n * page)
        },
        None => None,
    }
}

/// Whole mebibytes.
pub fn mib(bytes: u64) -> (r: u64)
    ensures
        r == bytes as int / 1_048_576,
{
    bytes / 1_048_576
}

/// What is told the operator of a sample.
#[derive(Clone, Copy, Debug, PartialEq, Eq, Structural)]
pub enum MemoryLine {
    /// All of the allocator, at the usual level.
    Summary,
    /// What is held and what is resident, for those who look closely.
    Brief,
    /// What the kernel tells, for want of the allocator.
    Resident,
    Nothing,
}

/// What is told of the sample of a tick: a summary every twentieth.
pub open spec fn line_of(tick: u32, stats: bool, resident: bool) -> MemoryLine {
    if stats {
        if tick % 20 == 0 {
            MemoryLine::Summary
        } else {
            MemoryLine::Brief
        }
    } else if tick % 20 == 0 && resident {
        MemoryLine::Resident
    } else {
        MemoryLine::Nothing
    }
}

/// What is told of the sample of a tick, and the next tick. `stats` and `resident` tell whether
/// allocator and kernel told anything.
pub fn report_step(tick: u32, stats: bool, resident: bool) -> (r: (MemoryLine, u32))
    ensures
        r.0 == line_of(tick, stats, resident),
        r.1 == (if tick == u32::MAX {
            0
        } else {
            tick + 1
        }),
{
    let due = tick % LOG_EVERY_TICKS == 0;
    let line = if stats {
        if due {
            MemoryLine::Summary
        } else {
            MemoryLine::Brief
        }
    } else if due && resident {
        MemoryLine::Resident
    } else {
        MemoryLine::Nothing
    };
    let next: u32 = if tick == 0xffff_ffff {
        0
    } else {
        tick + 1
    };
    (line, next)
}

/// With the allocator told, a summary comes every five minutes and nothing goes untold between.
pub proof fn summary_every_five_minutes(tick: u32, resident: bool)
    ensures
        line_of(tick, true, resident) == MemoryLine::Summary <==> tick * REPORT_INTERVAL_SECS % 300
            == 0,
        line_of(tick, true, resident) != MemoryLine::Nothing,
{
    assert((tick * 15) % 300 == 0 <==> tick % 20 == 0) by {
        vstd::arithmetic::div_mod::lemma_fundamental_div_mod(tick as int, 20);
        let q = tick as int / 20;
        let m = tick as int % 20;
        assert(tick * 15 == q * 300 + m * 15);
        vstd::arithmetic::div_mod::lemma_fundamental_div_mod_converse(
            tick * 15,
            300,
            q,
            m * 15,
        );
    }
}

} // verus!
