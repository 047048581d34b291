use vstd::prelude::*;

use crate::text::{chars_of, dec_int, i64_to_dec, string_from_chars};

verus! {

/// `n` spaces.
pub open spec fn spaces(n: nat) -> Seq<char> {
    Seq::new(n, |i: int| ' ')
}

/// `s` right-aligned in a field of `w` characters (`format!("{:>w$}")`).
pub open spec fn pad_left(s: Seq<char>, w: nat) -> Seq<char> {
    if s.len() >= w {
        s
    } else {
        spaces((w - s.len()) as nat) + s
    }
}

/// `s` left-aligned in a field of `w` characters (`format!("{:<w$}")`).
pub open spec fn pad_right(s: Seq<char>, w: nat) -> Seq<char> {
    if s.len() >= w {
        s
    } else {
        s + spaces((w - s.len()) as nat)
    }
}

fn push_str(out: &mut Vec<char>, s: &str)
    ensures
        final(out)@ == old(out)@ + s@,
{
    let c = chars_of(s);
    let ghost start = out@;
    let mut i: usize = 0;
    while i < c.len()
        invariant
            i <= c@.len(),
            c@ == s@,
            out@ == start + c@.take(i as int),
        decreases c@.len() - i,
    {
        out.push(c[i]);
        i = i + 1;
        assert(out@ =~= start + c@.take(i as int));
    }
    assert(c@.take(c@.len() as int) =~= c@);
}

fn push_spaces(out: &mut Vec<char>, n: usize)
    ensures
        final(out)@ == old(out)@ + spaces(n as nat),
{
    let ghost start = out@;
    let mut i: usize = 0;
    while i < n
        invariant
            i <= n,
            out@ == start + spaces(i as nat),
        decreases n - i,
    {
        out.push(' ');
        i = i + 1;
        assert(out@ =~= start + spaces(i as nat));
    }
}

fn push_left(out: &mut Vec<char>, s: &str, w: usize)
    ensures
        final(out)@ == old(out)@ + pad_left(s@, w as nat),
{
    let n = chars_of(s).len();
    if n < w {
        push_spaces(out, w - n);
    }
    push_str(out, s);
    assert(out@ =~= old(out)@ + pad_left(s@, w as nat));
}

fn push_right(out: &mut Vec<char>, s: &str, w: usize)
    ensures
        final(out)@ == old(out)@ + pad_right(s@, w as nat),
{
    let n = chars_of(s).len();
    push_str(out, s);
    if n < w {
        push_spaces(out, w - n);
    }
    assert(out@ =~= old(out)@ + pad_right(s@, w as nat));
}

/// A line of the job state summary: the count right-aligned in seven columns, two spaces,
/// the state.
pub open spec fn state_summary_text(n: i64, state: Seq<char>) -> Seq<char> {
    pad_left(dec_int(n as int), 7) + "  "@ + state
}

/// Formats a line of the job state summary.
pub fn state_summary_line(n: i64, state: &str) -> (s: String)
    ensures
        s@ == state_summary_text(n, state@),
{
    let mut out: Vec<char> = Vec::new();
    let d = i64_to_dec(n);
    push_left(&mut out, d.as_str(), 7);
    push_str(&mut out, "  ");
    push_str(&mut out, state);
    assert(out@ =~= state_summary_text(n, state@));
    string_from_chars(&out)
}

/// The short form of an intent id: its first eight characters, `..`, its last eight.
pub open spec fn intent_short_text(id: Seq<char>) -> Seq<char> {
    id.take(8) + ".."@ + id.skip(id.len() - 8)
}

/// Shortens a hex intent id.
pub fn intent_short(id: &str) -> (s: String)
    requires
        id@.len() >= 8,
    ensures
        s@ == intent_short_text(id@),
{
    let c = chars_of(id);
    let mut out: Vec<char> = Vec::new();
    let mut i: usize = 0;
    while i < 8
        invariant
            i <= 8,
            c@ == id@,
            c@.len() >= 8,
            out@ == c@.take(i as int),
        decreases 8 - i,
    {
        out.push(c[i]);
        i = i + 1;
        assert(out@ =~= c@.take(i as int));
    }
    out.push('.');
    out.push('.');
    let mut k: usize = c.len() - 8;
    proof {
        reveal_strlit("..");
    }
    assert(out@ =~= c@.take(8) + ".."@ + c@.subrange(c@.len() - 8, k as int));
    while k < c.len()
        invariant
            c@.len() - 8 <= k <= c@.len(),
            c@ == id@,
            c@.len() >= 8,
            out@ == c@.take(8) + ".."@ + c@.subrange(c@.len() - 8, k as int),
        decreases c@.len() - k,
    {
        out.push(c[k]);
        k = k + 1;
        assert(out@ =~= c@.take(8) + ".."@ + c@.subrange(c@.len() - 8, k as int));
    }
    assert(c@.subrange(c@.len() - 8, c@.len() as int) =~= c@.skip(c@.len() - 8));
    string_from_chars(&out)
}

/// The heading of the recent jobs table.
pub open spec fn recent_jobs_heading() -> Seq<char> {
    pad_left("job_id"@, 6) + "  "@ + pad_right("state"@, 10) + "  "@ + pad_right("intent_id"@, 24)
        + "  "@ + pad_left("type"@, 4) + "  "@ + pad_left("att"@, 5) + "  "@ + pad_left("lease"@, 5)
        + "  "@ + pad_right("updated_at"@, 20) + "  "@ + "last_error"@
}

/// Formats the heading of the recent jobs table.
pub fn recent_jobs_header() -> (s: String)
    ensures
        s@ == recent_jobs_heading(),
{
    let mut out: Vec<char> = Vec::new();
    push_left(&mut out, "job_id", 6);
    push_str(&mut out, "  ");
    push_right(&mut out, "state", 10);
    push_str(&mut out, "  ");
    push_right(&mut out, "intent_id", 24);
    push_str(&mut out, "  ");
    push_left(&mut out, "type", 4);
    push_str(&mut out, "  ");
    push_left(&mut out, "att", 5);
    push_str(&mut out, "  ");
    push_left(&mut out, "lease", 5);
    push_str(&mut out, "  ");
    push_right(&mut out, "updated_at", 20);
    push_str(&mut out, "  ");
    push_str(&mut out, "last_error");
    assert(out@ =~= recent_jobs_heading());
    string_from_chars(&out)
}

/// One job of the recent jobs table: the job id, state, short intent id, intent type code,
/// attempts, seconds left on the lease (0 when expired), last update and last error, in the
/// heading's columns.
pub open spec fn recent_job_text(
    job_id: i64,
    state: Seq<char>,
    intent_id: Seq<char>,
    intent_type: i16,
    attempts: i32,
    lease_secs_left: i64,
    updated_at: Seq<char>,
    last_error: Seq<char>,
) -> Seq<char> {
    pad_left(dec_int(job_id as int), 6) + "  "@ + pad_right(state, 10) + "  "@ + pad_right(
        intent_short_text(intent_id),
        24,
    ) + "  "@ + pad_left(dec_int(intent_type as int), 4) + "  "@ + pad_left(
        dec_int(attempts as int),
        5,
    ) + "  "@ + pad_left(dec_int(if lease_secs_left < 0 { 0 } else { lease_secs_left as int }), 5)
        + "  "@ + pad_right(updated_at, 20) + "  "@ + last_error
}

/// Formats one job of the recent jobs table.
pub fn recent_job_line(
    job_id: i64,
    state: &str,
    intent_id: &str,
    intent_type: i16,
    attempts: i32,
    lease_secs_left: i64,
    updated_at: &str,
    last_error: &str,
) -> (s: String)
    requires
        intent_id@.len() >= 8,
    ensures
        s@ == recent_job_text(
            job_id,
            state@,
            intent_id@,
            intent_type,
            attempts,
            lease_secs_left,
            updated_at@,
            last_error@,
        ),
{
    let mut out: Vec<char> = Vec::new();
    let id = i64_to_dec(job_id);
    push_left(&mut out, id.as_str(), 6);
    push_str(&mut out, "  ");
    push_right(&mut out, state, 10);
    push_str(&mut out, "  ");
    let short = intent_short(intent_id);
    push_right(&mut out, short.as_str(), 24);
    push_str(&mut out, "  ");
    let ty = i64_to_dec(intent_type as i64);
    push_left(&mut out, ty.as_str(), 4);
    push_str(&mut out, "  ");
    let att = i64_to_dec(attempts as i64);
    push_left(&mut out, att.as_str(), 5);
    push_str(&mut out, "  ");
    let lease_v: i64 = if lease_secs_left < 0 {
        0
    } else {
        lease_secs_left
    };
    let lease = i64_to_dec(lease_v);
    push_left(&mut out, lease.as_str(), 5);
    push_str(&mut out, "  ");
    push_right(&mut out, updated_at, 20);
    push_str(&mut out, "  ");
    push_str(&mut out, last_error);
    assert(out@ =~= recent_job_text(
        job_id,
        state@,
        intent_id@,
        intent_type,
        attempts,
        lease_secs_left,
        updated_at@,
        last_error@,
    ));
    string_from_chars(&out)
}

} // verus!
