//! Counters for every place a 20 ms frame can go missing between the call engine and the
//! sound card, and the reports made from them.

use crate::text::{decimal, push_decimal};
use vstd::prelude::*;
use vstd::string::*;

verus! {

/// One counted event.
pub struct Counter {
    pub n: u64,
    pub label: &'static str,
}

impl Counter {
    pub fn new(label: &'static str) -> (r: Counter)
        ensures
            r.n == 0,
            r.label@ == label@,
    {
        Counter { n: 0, label }
    }

    /// Count one event.
    pub fn bump(&mut self)
        ensures
            final(self).n == old(self).n.wrapping_add(1),
            final(self).label == old(self).label,
    {
        self.n = self.n.wrapping_add(1);
    }

    /// Count `n` events.
    pub fn add(&mut self, n: u64)
        ensures
            final(self).n == old(self).n.wrapping_add(n),
            final(self).label == old(self).label,
    {
        self.n = self.n.wrapping_add(n);
    }

    pub fn get(&self) -> (r: u64)
        ensures
            r == self.n,
    {
        self.n
    }
}

/// Where each event is counted, in the order of a snapshot.
pub const PLAY_PUSH: usize = 0;

pub const PLAY_DROP: usize = 1;

pub const PLAY_POP: usize = 2;

pub const AUX_PUSH: usize = 3;

pub const AUX_DROP: usize = 4;

pub const AUX_POP: usize = 5;

pub const CAP_PUSH: usize = 6;

pub const CAP_DROP: usize = 7;

pub const PLAYOUT_CB: usize = 8;

pub const PLAYOUT_DEMAND: usize = 9;

pub const PLAYOUT_UNDERRUN: usize = 10;

pub const REF_REAL: usize = 11;

pub const REF_SILENCE: usize = 12;

pub const SYS_CAPTURED: usize = 13;

pub const SYS_RAW_DROP: usize = 14;

pub const SYS_OUT: usize = 15;

pub const SYS_OUT_DROP: usize = 16;

/// How many events are counted.
pub const COUNTERS: usize = 17;

/// What a counter is called in a report.
pub open spec fn label_of(i: int) -> Seq<char> {
    if i == PLAY_PUSH {
        "play.push"@
    } else if i == PLAY_DROP {
        "play.drop"@
    } else if i == PLAY_POP {
        "play.pop"@
    } else if i == AUX_PUSH {
        "aux.push"@
    } else if i == AUX_DROP {
        "aux.drop"@
    } else if i == AUX_POP {
        "aux.pop"@
    } else if i == CAP_PUSH {
        "cap.push"@
    } else if i == CAP_DROP {
        "cap.drop"@
    } else if i == PLAYOUT_CB {
        "playout.cb"@
    } else if i == PLAYOUT_DEMAND {
        "playout.demand"@
    } else if i == PLAYOUT_UNDERRUN {
        "playout.underrun"@
    } else if i == REF_REAL {
        "ref.real"@
    } else if i == REF_SILENCE {
        "ref.silence"@
    } else if i == SYS_CAPTURED {
        "sys.captured"@
    } else if i == SYS_RAW_DROP {
        "sys.raw_drop"@
    } else if i == SYS_OUT {
        "sys.out"@
    } else {
        "sys.out_drop"@
    }
}

/// All the counters.
pub struct Probe {
    pub counters: Vec<Counter>,
}

impl Probe {
    /// Every counter is there, under its name.
    pub open spec fn wf(self) -> bool {
        &&& self.counters@.len() == COUNTERS
        &&& forall|i: int| 0 <= i < COUNTERS ==> (#[trigger] self.counters@[i]).label@ == label_of(i)
    }

    /// The value of a counter.
    pub open spec fn count(self, i: int) -> u64 {
        self.counters@[i].n
    }

    /// What a snapshot recorded for a counter; one that it lacks counts from zero.
    pub open spec fn base_of(base: Seq<u64>, i: int) -> u64 {
        if 0 <= i < base.len() {
            base[i]
        } else {
            0
        }
    }

    /// The snapshot was taken of these counters, earlier.
    pub open spec fn follows(self, base: Seq<u64>) -> bool {
        forall|i: int| 0 <= i < COUNTERS ==> Probe::base_of(base, i) <= #[trigger] self.count(i)
    }

    /// How far a counter has moved since the snapshot.
    pub open spec fn moved(self, base: Seq<u64>, i: int) -> nat {
        (self.count(i) - Probe::base_of(base, i)) as nat
    }

    /// All counters, at zero.
    pub fn new() -> (r: Probe)
        ensures
            r.wf(),
            forall|i: int| 0 <= i < COUNTERS ==> r.count(i) == 0,
    {
        let mut counters: Vec<Counter> = Vec::new();
        counters.push(Counter::new("play.push"));
        counters.push(Counter::new("play.drop"));
        counters.push(Counter::new("play.pop"));
        counters.push(Counter::new("aux.push"));
        counters.push(Counter::new("aux.drop"));
        counters.push(Counter::new("aux.pop"));
        counters.push(Counter::new("cap.push"));
        counters.push(Counter::new("cap.drop"));
        counters.push(Counter::new("playout.cb"));
        counters.push(Counter::new("playout.demand"));
        counters.push(Counter::new("playout.underrun"));
        counters.push(Counter::new("ref.real"));
        counters.push(Counter::new("ref.silence"));
        counters.push(Counter::new("sys.captured"));
        counters.push(Counter::new("sys.raw_drop"));
        counters.push(Counter::new("sys.out"));
        counters.push(Counter::new("sys.out_drop"));
        Probe { counters }
    }

    /// Count `n` events on the counter at `i`.
    pub fn add(&mut self, i: usize, n: u64)
        requires
            old(self).wf(),
            i < COUNTERS,
        ensures
            final(self).wf(),
            final(self).count(i as int) == old(self).count(i as int).wrapping_add(n),
            forall|j: int| 0 <= j < COUNTERS && j != i ==> final(self).count(j) == old(self).count(j),
    {
        self.counters[i].add(n);
    }
}

/// Every counter as of now.
pub fn snapshot(p: &Probe) -> (r: Vec<u64>)
    requires
        p.wf(),
    ensures
        r@ == Seq::new(COUNTERS as nat, |i: int| p.count(i)),
{
    let mut r: Vec<u64> = Vec::new();
    let mut i: usize = 0;
    while i < p.counters.len()
        invariant
            p.wf(),
            i <= COUNTERS,
            r@.len() == i,
            forall|j: int| 0 <= j < i ==> #[trigger] r@[j] == p.count(j),
        decreases COUNTERS - i,
    {
        r.push(p.counters[i].get());
        i = i + 1;
    }
    assert(r@ =~= Seq::new(COUNTERS as nat, |i: int| p.count(i)));
    r
}

/// How far the counter at `i` has moved since `base`.
pub fn since(p: &Probe, base: &[u64], i: usize) -> (r: u64)
    requires
        p.wf(),
        i < COUNTERS,
        p.follows(base@),
    ensures
        r == p.moved(base@, i as int),
{
    let from: u64 = if i < base.len() {
        base[i]
    } else {
        0
    };
    assert(Probe::base_of(base@, i as int) <= p.count(i as int));
    p.counters[i].get() - from
}

/// The counters that count losses, in the order a report lists them.
pub open spec fn loss_counter(k: int) -> int {
    if k == 0 {
        PLAY_DROP as int
    } else if k == 1 {
        AUX_DROP as int
    } else if k == 2 {
        CAP_DROP as int
    } else if k == 3 {
        PLAYOUT_UNDERRUN as int
    } else if k == 4 {
        SYS_RAW_DROP as int
    } else {
        SYS_OUT_DROP as int
    }
}

fn loss_counter_exec(k: usize) -> (r: usize)
    requires
        k < 6,
    ensures
        r == loss_counter(k as int),
        r < COUNTERS,
{
    if k == 0 {
        PLAY_DROP
    } else if k == 1 {
        AUX_DROP
    } else if k == 2 {
        CAP_DROP
    } else if k == 3 {
        PLAYOUT_UNDERRUN
    } else if k == 4 {
        SYS_RAW_DROP
    } else {
        SYS_OUT_DROP
    }
}

/// What was lost on the first `k` loss counters: name and number of each that moved,
/// separated by commas.
pub open spec fn losses_text(p: Probe, base: Seq<u64>, k: int) -> Seq<char>
    decreases k,
{
    if k <= 0 {
        Seq::empty()
    } else {
        let head = losses_text(p, base, k - 1);
        let i = loss_counter(k - 1);
        if p.moved(base, i) == 0 {
            head
        } else {
            (if head.len() == 0 {
                head
            } else {
                head + ", "@
            }) + label_of(i) + " "@ + decimal(p.moved(base, i))
        }
    }
}

/// The loss counters that moved since `base`, or `None` if nothing was lost.
pub fn losses_since(p: &Probe, base: &[u64]) -> (r: Option<String>)
    requires
        p.wf(),
        p.follows(base@),
    ensures
        (r is None) == (forall|k: int|
            0 <= k < 6 ==> p.moved(base@, #[trigger] loss_counter(k)) == 0),
        r matches Some(text) ==> text@ == losses_text(*p, base@, 6),
{
    let mut out: String = String::new();
    let mut any = false;
    let mut k: usize = 0;
    while k < 6
        invariant
            p.wf(),
            p.follows(base@),
            k <= 6,
            out@ == losses_text(*p, base@, k as int),
            any == (out@.len() > 0),
            !any == (forall|j: int| 0 <= j < k ==> p.moved(base@, #[trigger] loss_counter(j)) == 0),
        decreases 6 - k,
    {
        let i: usize = loss_counter_exec(k);
        let n: u64 = since(p, base, i);
        let ghost head = out@;
        if n > 0 {
            if any {
                out.append(", ");
            }
            out.append(p.counters[i].label);
            out.append(" ");
            push_decimal(&mut out, n);
            proof {
                reveal_strlit(" ");
                assert(p.moved(base@, loss_counter(k as int)) > 0);
                assert(out@ =~= losses_text(*p, base@, k + 1));
            }
            any = true;
        }
        k = k + 1;
    }
    if any {
        Some(out)
    } else {
        None
    }
}

/// `n` blanks.
pub open spec fn blanks(n: nat) -> Seq<char> {
    Seq::new(n, |i: int| ' ')
}

/// A text followed by blanks up to `width` characters; a longer text stands as it is.
pub open spec fn padded(text: Seq<char>, width: nat) -> Seq<char> {
    if text.len() < width {
        text + blanks((width - text.len()) as nat)
    } else {
        text
    }
}

fn push_padded(out: &mut String, text: &str, width: usize)
    ensures
        final(out)@ == old(out)@ + padded(text@, width as nat),
{
    out.append(text);
    let mut n: usize = text.unicode_len();
    let ghost m = n;
    assert(out@ =~= old(out)@ + text@ + blanks(0));
    while n < width
        invariant
            m == text@.len(),
            n >= m,
            n <= width || n == m,
            out@ == old(out)@ + text@ + blanks((n - m) as nat),
        decreases width - n,
    {
        out.append(" ");
        proof {
            reveal_strlit(" ");
            assert(blanks((n - m) as nat) + " "@ =~= blanks((n - m + 1) as nat));
            assert(out@ =~= old(out)@ + text@ + blanks((n + 1 - m) as nat));
        }
        n = n + 1;
    }
    assert(out@ =~= old(out)@ + padded(text@, width as nat));
}

/// The report on the first `k` counters, one line each.
pub open spec fn report_text(p: Probe, base: Seq<u64>, k: int) -> Seq<char>
    decreases k,
{
    if k <= 0 {
        Seq::empty()
    } else {
        report_text(p, base, k - 1) + "  "@ + padded(label_of(k - 1), 18) + " "@ + decimal(
            p.moved(base, k - 1),
        ) + "\n"@
    }
}

/// Every counter since `base`, one per line, zeroes included.
pub fn report_since(p: &Probe, base: &[u64]) -> (r: String)
    requires
        p.wf(),
        p.follows(base@),
    ensures
        r@ == report_text(*p, base@, COUNTERS as int),
{
    let mut out: String = String::new();
    let mut i: usize = 0;
    while i < COUNTERS
        invariant
            p.wf(),
            p.follows(base@),
            i <= COUNTERS,
            out@ == report_text(*p, base@, i as int),
        decreases COUNTERS - i,
    {
        let n: u64 = since(p, base, i);
        out.append("  ");
        push_padded(&mut out, p.counters[i].label, 18);
        out.append(" ");
        push_decimal(&mut out, n);
        out.append("\n");
        i = i + 1;
    }
    out
}

/// What a voice path that is not healthy is said to suffer from.
pub open spec fn voice_fault(cap: nat, play: nat) -> Seq<char> {
    if cap == 0 && play == 0 {
        " — NO audio in either direction"@
    } else if cap == 0 {
        " — MICROPHONE produced nothing (the peer hears silence)"@
    } else if play == 0 {
        " — nothing decoded to play (we hear silence)"@
    } else {
        ""@
    }
}

/// The voice path is fine, or as silent as it must be before the peer has been heard.
pub open spec fn voice_healthy(cap: nat, play: nat, heard_peer: bool) -> bool {
    cap > 0 && (play > 0 || !heard_peer)
}

/// A one-line report on the voice path, or `None` while it is healthy. `heard_peer` records
/// whether a frame of the peer's has ever arrived.
pub fn voice_health_since(p: &Probe, base: &[u64], heard_peer: &mut bool) -> (r: Option<String>)
    requires
        p.wf(),
        p.follows(base@),
    ensures
        ({
            let cap = p.moved(base@, CAP_PUSH as int);
            let play = p.moved(base@, PLAY_PUSH as int);
            &&& *final(heard_peer) == (*old(heard_peer) || play > 0)
            &&& (r is None) == voice_healthy(cap, play, *final(heard_peer))
            &&& r matches Some(text) ==> text@ == "capture "@ + decimal(cap) + " frame(s), playout "@
                + decimal(play) + " frame(s) in the last 5 s"@ + voice_fault(cap, play)
        }),
{
    let cap: u64 = since(p, base, CAP_PUSH);
    let play: u64 = since(p, base, PLAY_PUSH);
    if play > 0 {
        *heard_peer = true;
    }
    if cap > 0 && play > 0 {
        return None;
    }
    if play == 0 && !*heard_peer && cap > 0 {
        return None;
    }
    let mut out: String = "capture ".to_owned();
    push_decimal(&mut out, cap);
    out.append(" frame(s), playout ");
    push_decimal(&mut out, play);
    out.append(" frame(s) in the last 5 s");
    if cap == 0 && play == 0 {
        out.append(" — NO audio in either direction");
    } else if cap == 0 {
        out.append(" — MICROPHONE produced nothing (the peer hears silence)");
    } else if play == 0 {
        out.append(" — nothing decoded to play (we hear silence)");
    } else {
        out.append("");
    }
    Some(out)
}

/// A snapshot taken now records every counter: nothing has moved since.
pub proof fn lemma_nothing_moved_since_a_fresh_snapshot(p: Probe, i: int)
    requires
        p.wf(),
        0 <= i < COUNTERS,
    ensures
        p.follows(Seq::new(COUNTERS as nat, |j: int| p.count(j))),
        p.moved(Seq::new(COUNTERS as nat, |j: int| p.count(j)), i) == 0,
{
}

/// The counters that count losses are those that are named for what was lost.
pub proof fn lemma_what_counts_as_a_loss(k: int)
    requires
        0 <= k < 6,
    ensures
        label_of(loss_counter(k)) == seq![
            "play.drop"@,
            "aux.drop"@,
            "cap.drop"@,
            "playout.underrun"@,
            "sys.raw_drop"@,
            "sys.out_drop"@,
        ][k],
        loss_counter(k) == seq![1int, 4int, 7int, 10int, 14int, 16int][k],
{
}

/// Each counter goes by the name of what it counts.
pub proof fn lemma_each_counter_has_its_name(i: int)
    requires
        0 <= i < 17,
    ensures
        label_of(i) == seq![
            "play.push"@,
            "play.drop"@,
            "play.pop"@,
            "aux.push"@,
            "aux.drop"@,
            "aux.pop"@,
            "cap.push"@,
            "cap.drop"@,
            "playout.cb"@,
            "playout.demand"@,
            "playout.underrun"@,
            "ref.real"@,
            "ref.silence"@,
            "sys.captured"@,
            "sys.raw_drop"@,
            "sys.out"@,
            "sys.out_drop"@,
        ][i],
{
}

/// A counter has moved by what was counted since the snapshot, from zero where that lacks it.
pub proof fn lemma_how_far_a_counter_moved(p: Probe, base: Seq<u64>, i: int)
    requires
        p.wf(),
        p.follows(base),
        0 <= i < COUNTERS,
    ensures
        i < base.len() ==> p.counters@[i].n == base[i] + p.moved(base, i),
        i >= base.len() ==> p.counters@[i].n == p.moved(base, i),
{
    assert(Probe::base_of(base, i) <= p.count(i));
}

/// Every loss stands in the report of losses, its name before its number, and nothing is reported
/// where nothing was lost.
pub proof fn lemma_every_loss_is_reported(p: Probe, base: Seq<u64>, n: int, k: int) -> (at: int)
    requires
        0 <= k < n,
    ensures
        p.moved(base, loss_counter(k)) > 0 ==> crate::text::stands_at(
            losses_text(p, base, n),
            label_of(loss_counter(k)) + " "@ + decimal(p.moved(base, loss_counter(k))),
            at,
        ),
        (forall|j: int| 0 <= j < n ==> p.moved(base, #[trigger] loss_counter(j)) == 0) ==> losses_text(
            p,
            base,
            n,
        ).len() == 0,
    decreases n,
{
    let head = losses_text(p, base, n - 1);
    let all = losses_text(p, base, n);
    let i = loss_counter(n - 1);
    let entry = label_of(i) + " "@ + decimal(p.moved(base, i));
    let glue = if head.len() == 0 {
        head
    } else {
        head + ", "@
    };
    assert(p.moved(base, i) != 0 ==> all =~= glue + entry);
    if n > 1 {
        let _ = lemma_every_loss_is_reported(p, base, n - 1, 0);
    }
    if k < n - 1 {
        let at = lemma_every_loss_is_reported(p, base, n - 1, k);
        let mine = label_of(loss_counter(k)) + " "@ + decimal(p.moved(base, loss_counter(k)));
        if p.moved(base, loss_counter(k)) > 0 {
            assert(all.subrange(at, at + mine.len()) =~= head.subrange(at, at + mine.len()));
        }
        at
    } else {
        if p.moved(base, i) > 0 {
            assert(all.subrange(glue.len() as int, (glue.len() + entry.len()) as int) =~= entry);
        }
        glue.len() as int
    }
}

/// The full report has a line for every counter, moved or not: two blanks, its name, blanks up to
/// the column of the numbers, and its number.
pub proof fn lemma_every_counter_has_its_line(p: Probe, base: Seq<u64>, n: int, k: int) -> (at: int)
    requires
        0 <= k < n,
    ensures
        crate::text::stands_at(
            report_text(p, base, n),
            "  "@ + padded(label_of(k), 18) + " "@ + decimal(p.moved(base, k)) + "\n"@,
            at,
        ),
        at == report_text(p, base, k).len(),
    decreases n,
{
    let head = report_text(p, base, n - 1);
    let all = report_text(p, base, n);
    let last = "  "@ + padded(label_of(n - 1), 18) + " "@ + decimal(p.moved(base, n - 1)) + "\n"@;
    assert(all =~= head + last);
    if k < n - 1 {
        let at = lemma_every_counter_has_its_line(p, base, n - 1, k);
        let mine = "  "@ + padded(label_of(k), 18) + " "@ + decimal(p.moved(base, k)) + "\n"@;
        assert(all.subrange(at, at + mine.len()) =~= head.subrange(at, at + mine.len()));
        at
    } else {
        assert(all.subrange(head.len() as int, (head.len() + last.len()) as int) =~= last);
        head.len() as int
    }
}

/// A padded text is at least as wide as asked, begins with the text, and has only blanks after it.
pub proof fn lemma_padding_is_blanks_behind(text: Seq<char>, width: nat)
    ensures
        padded(text, width).len() == if text.len() < width {
            width
        } else {
            text.len()
        },
        padded(text, width).take(text.len() as int) == text,
        forall|i: int| text.len() <= i < padded(text, width).len() ==> #[trigger] padded(text, width)[i] == ' ',
{
    assert(padded(text, width).take(text.len() as int) =~= text);
}

/// A voice path that captures nothing is never healthy, one that captures and plays always is, and
/// one that captures and plays nothing is healthy until the peer has been heard; each fault is told
/// by what is missing.
pub proof fn lemma_when_the_voice_is_healthy(cap: nat, play: nat, heard_peer: bool)
    ensures
        cap == 0 ==> !voice_healthy(cap, play, heard_peer),
        cap > 0 && play > 0 ==> voice_healthy(cap, play, heard_peer),
        cap > 0 && play == 0 ==> voice_healthy(cap, play, heard_peer) == !heard_peer,
        cap == 0 && play == 0 ==> voice_fault(cap, play) == " — NO audio in either direction"@,
        cap == 0 && play > 0 ==> voice_fault(cap, play)
            == " — MICROPHONE produced nothing (the peer hears silence)"@,
        cap > 0 && play == 0 ==> voice_fault(cap, play) == " — nothing decoded to play (we hear silence)"@,
{
}

} // verus!
