//! Process memory, as the kernel reports it.
use vstd::prelude::*;
use crate::text::{chars_of, fill_text, filled};
use crate::time::{sat_add, sat_sub};

verus! {

/// Process memory in kilobytes; zero where it is not known.
///
/// Resident memory counts every resident page, not only locked ones: the heap, and
/// file-backed pages until the kernel takes them back.
#[derive(Clone, Copy, Debug, PartialEq, Eq, Structural)]
pub struct ProcRss {
    pub rss_kb: u64,
    /// Private anonymous memory: heap, stacks.
    pub anon_kb: u64,
    /// File-backed resident memory.
    pub file_kb: u64,
    /// The most that was ever resident.
    pub hwm_kb: u64,
    /// Locked pages only.
    pub locked_kb: u64,
}

impl ProcRss {
    /// Nothing known.
    pub open spec fn blank() -> ProcRss {
        ProcRss { rss_kb: 0, anon_kb: 0, file_kb: 0, hwm_kb: 0, locked_kb: 0 }
    }
}

impl Default for ProcRss {
    fn default() -> (r: Self)
        ensures
            r == ProcRss::blank(),
    {
        ProcRss { rss_kb: 0, anon_kb: 0, file_kb: 0, hwm_kb: 0, locked_kb: 0 }
    }
}

/// Is this a white space character?
pub open spec fn is_space(c: char) -> bool {
    let n = c as u32;
    ||| 9 <= n <= 13
    ||| n == 32
    ||| n == 0x85
    ||| n == 0xa0
    ||| n == 0x1680
    ||| 0x2000 <= n <= 0x200a
    ||| n == 0x2028
    ||| n == 0x2029
    ||| n == 0x202f
    ||| n == 0x205f
    ||| n == 0x3000
}

fn space(c: char) -> (b: bool)
    ensures
        b == is_space(c),
{
    let n: u32 = c as u32;
    (9 <= n && n <= 13) || n == 32 || n == 0x85 || n == 0xa0 || n == 0x1680 || (0x2000 <= n && n
        <= 0x200a) || n == 0x2028 || n == 0x2029 || n == 0x202f || n == 0x205f || n == 0x3000
}

/// The first word of `s`: what stands between white space. Empty where there is none.
pub open spec fn first_word(s: Seq<char>) -> Seq<char>
    decreases s.len(),
{
    if s.len() == 0 {
        s
    } else if is_space(s[0]) {
        first_word(s.drop_first())
    } else {
        word_prefix(s)
    }
}

/// `s` up to its first white space.
pub open spec fn word_prefix(s: Seq<char>) -> Seq<char>
    decreases s.len(),
{
    if s.len() == 0 || is_space(s[0]) {
        Seq::empty()
    } else {
        seq![s[0]] + word_prefix(s.drop_first())
    }
}

/// Is this a decimal digit?
pub open spec fn is_digit(c: char) -> bool {
    48 <= c as u32 <= 57
}

/// The number that digits spell.
pub open spec fn digits_value(s: Seq<char>) -> nat
    decreases s.len(),
{
    if s.len() == 0 {
        0
    } else {
        digits_value(s.drop_last()) * 10 + (s.last() as u32 - 48) as nat
    }
}

/// The digits of a number: what follows an optional plus sign.
pub open spec fn unsigned_part(s: Seq<char>) -> Seq<char> {
    if s.len() > 0 && s[0] == '+' {
        s.drop_first()
    } else {
        s
    }
}

/// The number that a word spells: digits after an optional plus sign, within 64
/// bits.
pub open spec fn number_of(s: Seq<char>) -> Option<u64> {
    let d = unsigned_part(s);
    if d.len() == 0 || !(forall|i: int| 0 <= i < d.len() ==> is_digit(#[trigger] d[i]))
        || digits_value(d) > u64::MAX {
        None
    } else {
        Some(digits_value(d) as u64)
    }
}

/// The size at the start of `rest`, zero where there is none.
pub open spec fn kb_field(rest: Seq<char>) -> u64 {
    match number_of(first_word(rest)) {
        Some(n) => n,
        None => 0,
    }
}

fn parse_number(c: &Vec<char>, from: usize, to: usize) -> (r: Option<u64>)
    requires
        from <= to <= c@.len(),
    ensures
        r == number_of(c@.subrange(from as int, to as int)),
{
    let ghost word = c@.subrange(from as int, to as int);
    let mut start: usize = from;
    if from < to && c[from] == '+' {
        start = from + 1;
        assert(word.drop_first() =~= c@.subrange(start as int, to as int));
    }
    let ghost d = c@.subrange(start as int, to as int);
    assert(d == unsigned_part(word));
    if start == to {
        return None;
    }
    let mut acc: u128 = 0;
    let mut over = false;
    let mut i: usize = start;
    assert(d.take(0) =~= Seq::<char>::empty());
    while i < to
        invariant
            start <= i <= to,
            to <= c@.len(),
            d == c@.subrange(start as int, to as int),
            over ==> digits_value(d.take(i - start)) > u64::MAX,
            !over ==> acc == digits_value(d.take(i - start)) && acc <= u64::MAX,
            forall|k: int| 0 <= k < i - start ==> is_digit(#[trigger] d[k]),
            word == c@.subrange(from as int, to as int),
            d == unsigned_part(word),
            start < to,
        decreases to - i,
    {
        let n: u32 = c[i] as u32;
        assert(d[i - start] == c@[i as int]);
        if n < 48 || n > 57 {
            assert(!is_digit(d[i - start]));
            return None;
        }
        proof {
            let t = d.take(i - start + 1);
            assert(t.drop_last() =~= d.take(i - start));
            assert(t.last() == c@[i as int]);
        }
        if !over {
            acc = acc * 10 + (n - 48) as u128;
            if acc > 0xffff_ffff_ffff_ffff {
                over = true;
            }
        }
        i = i + 1;
    }
    assert(d.take(i - start) =~= d);
    if over {
        return None;
    }
    Some(acc as u64)
}

proof fn lemma_word_prefix(s: Seq<char>, n: int)
    requires
        0 <= n <= s.len(),
        forall|i: int| 0 <= i < n ==> !is_space(#[trigger] s[i]),
        n == s.len() || is_space(s[n]),
    ensures
        word_prefix(s) == s.take(n),
    decreases s.len(),
{
    if n == 0 {
        assert(s.take(0) =~= Seq::<char>::empty());
    } else {
        assert forall|i: int| 0 <= i < n - 1 implies !is_space(#[trigger] s.drop_first()[i]) by {
            assert(!is_space(s[i + 1]));
        }
        assert(!is_space(s[0]));
        lemma_word_prefix(s.drop_first(), n - 1);
        assert(seq![s[0]] + s.drop_first().take(n - 1) =~= s.take(n));
    }
}

proof fn lemma_first_word(s: Seq<char>, n: int)
    requires
        0 <= n <= s.len(),
        forall|i: int| 0 <= i < n ==> is_space(#[trigger] s[i]),
        n == s.len() || !is_space(s[n]),
    ensures
        first_word(s) == (if n == s.len() {
            Seq::empty()
        } else {
            word_prefix(s.skip(n))
        }),
    decreases s.len(),
{
    if s.len() == 0 {
        assert(first_word(s) =~= Seq::<char>::empty());
    } else if n == 0 {
        assert(s.skip(0) =~= s);
    } else {
        assert forall|i: int| 0 <= i < n - 1 implies is_space(#[trigger] s.drop_first()[i]) by {
            assert(is_space(s[i + 1]));
        }
        assert(is_space(s[0]));
        lemma_first_word(s.drop_first(), n - 1);
        assert(s.drop_first().skip(n - 1) =~= s.skip(n));
    }
}

fn parse_kb_field(c: &Vec<char>, from: usize, to: usize) -> (kb: u64)
    requires
        from <= to <= c@.len(),
    ensures
        kb == kb_field(c@.subrange(from as int, to as int)),
{
    let ghost rest = c@.subrange(from as int, to as int);
    let mut a: usize = from;
    while a < to && space(c[a])
        invariant
            from <= a <= to,
            to <= c@.len(),
            rest == c@.subrange(from as int, to as int),
            forall|k: int| 0 <= k < a - from ==> is_space(#[trigger] rest[k]),
        decreases to - a,
    {
        assert(rest[a - from] == c@[a as int]);
        a = a + 1;
    }
    assert(a < to ==> rest[a - from] == c@[a as int]);
    proof {
        lemma_first_word(rest, a - from);
    }
    let ghost tail = rest.skip(a - from);
    assert(tail =~= c@.subrange(a as int, to as int));
    let mut b: usize = a;
    while b < to && !space(c[b])
        invariant
            a <= b <= to,
            to <= c@.len(),
            tail == c@.subrange(a as int, to as int),
            forall|k: int| 0 <= k < b - a ==> !is_space(#[trigger] tail[k]),
        decreases to - b,
    {
        assert(tail[b - a] == c@[b as int]);
        b = b + 1;
    }
    assert(b < to ==> tail[b - a] == c@[b as int]);
    proof {
        lemma_word_prefix(tail, b - a);
        assert(tail.take(b - a) =~= c@.subrange(a as int, b as int));
        if a == to {
            assert(c@.subrange(a as int, b as int) =~= Seq::<char>::empty());
        }
    }
    match parse_number(c, a, b) {
        Some(n) => n,
        None => 0,
    }
}

/// Does `s` start with `p`?
pub open spec fn starts_with(s: Seq<char>, p: Seq<char>) -> bool {
    p.len() <= s.len() && s.take(p.len() as int) == p
}

/// What follows `p` at the start of `s`.
pub open spec fn after(s: Seq<char>, p: Seq<char>) -> Seq<char> {
    s.skip(p.len() as int)
}

fn field_after(c: &Vec<char>, from: usize, to: usize, p: &str) -> (r: Option<u64>)
    requires
        from <= to <= c@.len(),
    ensures
        ({
            let line = c@.subrange(from as int, to as int);
            r == (if starts_with(line, p@) {
                Some(kb_field(after(line, p@)))
            } else {
                None
            })
        }),
{
    let ghost line = c@.subrange(from as int, to as int);
    let pc = chars_of(p);
    let n: usize = pc.len();
    if n > to - from {
        return None;
    }
    let mut i: usize = 0;
    while i < n
        invariant
            i <= n,
            n == pc@.len(),
            pc@ == p@,
            from + n <= to,
            to <= c@.len(),
            line == c@.subrange(from as int, to as int),
            forall|k: int| 0 <= k < i ==> line[k] == #[trigger] pc@[k],
        decreases n - i,
    {
        if c[from + i] != pc[i] {
            assert(line.take(n as int)[i as int] != pc@[i as int]);
            return None;
        }
        i = i + 1;
    }
    assert(line.take(n as int) =~= p@);
    assert(after(line, p@) =~= c@.subrange(from + n, to as int));
    Some(parse_kb_field(c, from + n, to))
}

/// One line of the process status taken in. Shared memory is neither heap nor a
/// mapped table; it counts as file-backed.
pub open spec fn status_line(r: ProcRss, line: Seq<char>) -> ProcRss {
    if starts_with(line, "VmRSS:"@) {
        ProcRss { rss_kb: kb_field(after(line, "VmRSS:"@)), ..r }
    } else if starts_with(line, "VmHWM:"@) {
        ProcRss { hwm_kb: kb_field(after(line, "VmHWM:"@)), ..r }
    } else if starts_with(line, "RssAnon:"@) {
        ProcRss { anon_kb: kb_field(after(line, "RssAnon:"@)), ..r }
    } else if starts_with(line, "RssFile:"@) {
        ProcRss { file_kb: kb_field(after(line, "RssFile:"@)), ..r }
    } else if starts_with(line, "RssShmem:"@) {
        ProcRss { file_kb: sat_add(r.file_kb, kb_field(after(line, "RssShmem:"@))), ..r }
    } else {
        r
    }
}

/// `new` where `old` is not known.
pub open spec fn or_new(known: u64, new: u64) -> u64 {
    if known == 0 {
        new
    } else {
        known
    }
}

/// One line of the memory map rollup taken in: it fills what the status lacks.
pub open spec fn rollup_line(r: ProcRss, line: Seq<char>) -> ProcRss {
    if starts_with(line, "Rss:"@) {
        ProcRss { rss_kb: or_new(r.rss_kb, kb_field(after(line, "Rss:"@))), ..r }
    } else if starts_with(line, "Anonymous:"@) {
        ProcRss { anon_kb: or_new(r.anon_kb, kb_field(after(line, "Anonymous:"@))), ..r }
    } else if starts_with(line, "RssAnon:"@) {
        ProcRss { anon_kb: or_new(r.anon_kb, kb_field(after(line, "RssAnon:"@))), ..r }
    } else if starts_with(line, "RssFile:"@) {
        ProcRss { file_kb: or_new(r.file_kb, kb_field(after(line, "RssFile:"@))), ..r }
    } else if starts_with(line, "Locked:"@) {
        ProcRss { locked_kb: kb_field(after(line, "Locked:"@)), ..r }
    } else {
        r
    }
}

/// Where the line that starts at `i` ends.
pub open spec fn line_end(t: Seq<char>, i: int) -> int
    decreases t.len() - i,
{
    if i < 0 || i >= t.len() {
        t.len() as int
    } else if t[i] == '\n' {
        i
    } else {
        line_end(t, i + 1)
    }
}

/// A line ends after its start and within the text.
pub proof fn lemma_line_end(t: Seq<char>, i: int)
    requires
        0 <= i <= t.len(),
    ensures
        i <= line_end(t, i) <= t.len(),
    decreases t.len() - i,
{
    if i < t.len() && t[i] != '\n' {
        lemma_line_end(t, i + 1);
    }
}

/// The lines from `i` on taken in, those of the status or those of the rollup.
pub open spec fn lines_from(r: ProcRss, t: Seq<char>, i: int, rollup: bool) -> ProcRss
    decreases t.len() + 1 - i,
{
    if i < 0 || i >= t.len() {
        r
    } else {
        proof {
            lemma_line_end(t, i);
        }
        let line = t.subrange(i, line_end(t, i));
        let next = if rollup {
            rollup_line(r, line)
        } else {
            status_line(r, line)
        };
        lines_from(next, t, line_end(t, i) + 1, rollup)
    }
}

/// Resident memory that is not anonymous counts as file-backed where no split is
/// given.
pub open spec fn residual_file(r: ProcRss) -> ProcRss {
    if r.file_kb == 0 && r.rss_kb > 0 && r.anon_kb > 0 && r.anon_kb <= r.rss_kb {
        ProcRss { file_kb: sat_sub(r.rss_kb, r.anon_kb), ..r }
    } else {
        r
    }
}

/// Process memory by the texts of the status and of the rollup, as far as they could
/// be read.
pub open spec fn rss_of(status: Option<Seq<char>>, rollup: Option<Seq<char>>) -> ProcRss {
    let a = match status {
        Some(t) => lines_from(ProcRss::blank(), t, 0, false),
        None => ProcRss::blank(),
    };
    match rollup {
        Some(t) => residual_file(lines_from(a, t, 0, true)),
        None => a,
    }
}

fn take_status_line(r: &mut ProcRss, c: &Vec<char>, from: usize, to: usize)
    requires
        from <= to <= c@.len(),
    ensures
        *final(r) == status_line(*old(r), c@.subrange(from as int, to as int)),
{
    if let Some(kb) = field_after(c, from, to, "VmRSS:") {
        r.rss_kb = kb;
    } else if let Some(kb) = field_after(c, from, to, "VmHWM:") {
        r.hwm_kb = kb;
    } else if let Some(kb) = field_after(c, from, to, "RssAnon:") {
        r.anon_kb = kb;
    } else if let Some(kb) = field_after(c, from, to, "RssFile:") {
        r.file_kb = kb;
    } else if let Some(kb) = field_after(c, from, to, "RssShmem:") {
        r.file_kb = r.file_kb.saturating_add(kb);
    }
}

fn take_rollup_line(r: &mut ProcRss, c: &Vec<char>, from: usize, to: usize)
    requires
        from <= to <= c@.len(),
    ensures
        *final(r) == rollup_line(*old(r), c@.subrange(from as int, to as int)),
{
    if let Some(kb) = field_after(c, from, to, "Rss:") {
        if r.rss_kb == 0 {
            r.rss_kb = kb;
        }
    } else if let Some(kb) = field_after(c, from, to, "Anonymous:") {
        if r.anon_kb == 0 {
            r.anon_kb = kb;
        }
    } else if let Some(kb) = field_after(c, from, to, "RssAnon:") {
        if r.anon_kb == 0 {
            r.anon_kb = kb;
        }
    } else if let Some(kb) = field_after(c, from, to, "RssFile:") {
        if r.file_kb == 0 {
            r.file_kb = kb;
        }
    } else if let Some(kb) = field_after(c, from, to, "Locked:") {
        r.locked_kb = kb;
    }
}

fn take_lines(r: &mut ProcRss, text: &str, rollup: bool)
    ensures
        *final(r) == lines_from(*old(r), text@, 0, rollup),
{
    let c = chars_of(text);
    let n: usize = c.len();
    let ghost all = lines_from(*r, c@, 0, rollup);
    let mut i: usize = 0;
    while i < n
        invariant
            i <= n,
            n == c@.len(),
            lines_from(*r, c@, i as int, rollup) == all,
        decreases n - i,
    {
        let mut e: usize = i;
        while e < n && c[e] != '\n'
            invariant
                i <= e <= n,
                n == c@.len(),
                line_end(c@, e as int) == line_end(c@, i as int),
            decreases n - e,
        {
            e = e + 1;
        }
        assert(line_end(c@, i as int) == e);
        if rollup {
            take_rollup_line(r, &c, i, e);
        } else {
            take_status_line(r, &c, i, e);
        }
        if e < n {
            i = e + 1;
        } else {
            assert(lines_from(*r, c@, e + 1, rollup) == all);
            i = n;
        }
    }
}

/// Process memory by the texts of the status and of the memory map rollup, as far as
/// they could be read. The status is preferred; the rollup fills what it lacks.
pub fn parse_proc_rss(status: Option<&str>, rollup: Option<&str>) -> (r: ProcRss)
    ensures
        r == rss_of(
            match status {
                Some(t) => Some(t@),
                None => None,
            },
            match rollup {
                Some(t) => Some(t@),
                None => None,
            },
        ),
{
    let mut r = ProcRss::default();
    if let Some(t) = status {
        take_lines(&mut r, t, false);
    }
    if let Some(t) = rollup {
        take_lines(&mut r, t, true);
        if r.file_kb == 0 && r.rss_kb > 0 && r.anon_kb > 0 && r.anon_kb <= r.rss_kb {
            r.file_kb = r.rss_kb - r.anon_kb;
        }
    }
    r
}

/// Whole mebibytes in kilobytes.
pub open spec fn mib_of_kb(kb: u64) -> u64 {
    kb / 1024
}

/// Whole mebibytes in kilobytes.
pub fn kb_mib(kb: u64) -> (mib: u64)
    ensures
        mib == mib_of_kb(kb),
{
    kb / 1024
}

/// What the tip-following process holds.
#[derive(Clone, Copy, Debug, PartialEq, Eq, Structural)]
pub struct TipPerfSizes {
    pub rss: ProcRss,
    pub cache_bodies: usize,
    pub held_bodies: usize,
    pub sh_heads: usize,
    pub mp_live: usize,
}

/// How [`TipPerfSizes`] is shown.
pub const TIP_PERF_LINE: &'static str =
    "rss={}MiB anon={}MiB file={}MiB hwm={}MiB cache={} held={} sh_heads={} mp_live={}";

/// The numbers of [`TIP_PERF_LINE`].
pub open spec fn tip_perf_nums(s: TipPerfSizes) -> Seq<u128> {
    seq![
        mib_of_kb(s.rss.rss_kb) as u128,
        mib_of_kb(s.rss.anon_kb) as u128,
        mib_of_kb(s.rss.file_kb) as u128,
        mib_of_kb(s.rss.hwm_kb) as u128,
        s.cache_bodies as u128,
        s.held_bodies as u128,
        s.sh_heads as u128,
        s.mp_live as u128,
    ]
}

/// The memory and the held counts of the tip-following process, as one line.
pub fn format_tip_perf_sizes(s: &TipPerfSizes) -> (r: String)
    ensures
        r@ == filled(TIP_PERF_LINE@, tip_perf_nums(*s)),
{
    let nums: Vec<u128> = vec![
        kb_mib(s.rss.rss_kb) as u128,
        kb_mib(s.rss.anon_kb) as u128,
        kb_mib(s.rss.file_kb) as u128,
        kb_mib(s.rss.hwm_kb) as u128,
        s.cache_bodies as u128,
        s.held_bodies as u128,
        s.sh_heads as u128,
        s.mp_live as u128,
    ];
    assert(nums@ =~= tip_perf_nums(*s));
    fill_text(TIP_PERF_LINE, &nums)
}

} // verus!
