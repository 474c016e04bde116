//! What the shown numbers and texts mean.
use vstd::prelude::*;
use crate::confirm_events::confirm_lag;
use crate::perf_log::{
    accounted_of, accounted_parts, load_busy_of, load_wall_of, mib_of_bytes, phase_slow,
    plan_batch_of, share_of, us_per, us_wide, write_of,
};
use crate::perf_sample::{ms_of, sat_total, IbdPerfSample};
use crate::proc_rss::{
    digits_value, first_word, is_digit, is_space, kb_field, lines_from, mib_of_kb, number_of,
    residual_file, status_line, word_prefix, ProcRss,
};
use crate::text::{dec, fill_from, filled, has_text, hex_digit, hex_reversed, text_at};
use crate::time::{sat_add, sat_sub, wrap_add};

verus! {

/// A number in decimal reads back as itself, is made of digits alone, and starts with zero
/// only where it is zero.
pub proof fn law_decimal_reads_back(n: nat)
    ensures
        dec(n).len() > 0,
        digits_value(dec(n)) == n,
        forall|i: int| 0 <= i < dec(n).len() ==> is_digit(#[trigger] dec(n)[i]),
        dec(n)[0] == '0' <==> n == 0,
    decreases n,
{
    if n < 10 {
        let one = dec(n);
        assert(one.drop_last() =~= Seq::<char>::empty());
        assert(digits_value(one.drop_last()) == 0);
        assert(one.last() as u32 == 48 + n);
    } else {
        let r = dec(n / 10);
        law_decimal_reads_back(n / 10);
        let all = dec(n);
        assert(all.drop_last() =~= r);
        assert(all.last() as u32 == 48 + n % 10);
        assert(all[0] == r[0]);
        assert forall|i: int| 0 <= i < all.len() implies is_digit(#[trigger] all[i]) by {
            if i < r.len() {
                assert(all[i] == r[i]);
            }
        }
    }
}

/// The value of a hexadecimal character.
pub open spec fn nibble_of(c: char) -> int {
    if c as u32 >= 97 {
        c as u32 - 97 + 10
    } else {
        c as u32 - 48
    }
}

/// Bytes are shown by two hexadecimal characters each, the last byte first.
pub proof fn law_hex_spells_the_bytes_backwards(b: Seq<u8>, k: int)
    requires
        0 <= k < b.len(),
    ensures
        hex_reversed(b).len() == 2 * b.len(),
        nibble_of(hex_reversed(b)[2 * k]) * 16 + nibble_of(hex_reversed(b)[2 * k + 1])
            == b[b.len() - 1 - k],
    decreases b.len(),
{
    let r = b.drop_last();
    let all = hex_reversed(b);
    let rest = hex_reversed(r);
    let x = b.last() as int;
    assert(all =~= seq![hex_digit(x / 16), hex_digit(x % 16)] + rest);
    if r.len() > 0 {
        let j = if k > 0 {
            k - 1
        } else {
            0
        };
        law_hex_spells_the_bytes_backwards(r, j);
        if k > 0 {
            assert(all[2 * k] == rest[2 * k - 2]);
            assert(all[2 * k + 1] == rest[2 * k - 1]);
            assert(r[r.len() - k] == b[b.len() - 1 - k]);
        }
    } else {
        assert(rest.len() == 0);
    }
    if k == 0 {
        assert(all[0] == hex_digit(x / 16) && all[1] == hex_digit(x % 16));
        assert(0 <= x / 16 < 16 && 0 <= x % 16 < 16);
        assert(x / 16 * 16 + x % 16 == x);
    }
}

proof fn lemma_fill_shift(p: Seq<char>, t: Seq<char>, i: int, nums: Seq<u128>, k: int)
    requires
        0 <= i,
    ensures
        fill_from(p + t, p.len() + i, nums, k) == fill_from(t, i, nums, k),
    decreases t.len() - i,
{
    let all = p + t;
    let at = p.len() + i;
    if i < t.len() {
        assert(all[at] == t[i]);
        if i + 1 < t.len() && t[i] == '{' && t[i + 1] == '}' {
            assert(all[at + 1] == t[i + 1]);
            lemma_fill_shift(p, t, i + 2, nums, k + 1);
        } else {
            if i + 1 < t.len() {
                assert(all[at + 1] == t[i + 1]);
            }
            lemma_fill_shift(p, t, i + 1, nums, k);
        }
    }
}

proof fn lemma_fill_plain(a: Seq<char>, t: Seq<char>, i: int, nums: Seq<u128>, k: int)
    requires
        0 <= i <= a.len(),
        forall|j: int| 0 <= j < a.len() ==> #[trigger] a[j] != '{',
    ensures
        fill_from(a + t, i, nums, k) == a.skip(i) + fill_from(t, 0, nums, k),
    decreases a.len() - i,
{
    let all = a + t;
    if i < a.len() {
        assert(all[i] == a[i]);
        lemma_fill_plain(a, t, i + 1, nums, k);
        assert(a.skip(i) =~= seq![a[i]] + a.skip(i + 1));
        assert(seq![a[i]] + (a.skip(i + 1) + fill_from(t, 0, nums, k)) =~= a.skip(i) + fill_from(
            t,
            0,
            nums,
            k,
        ));
    } else {
        lemma_fill_shift(a, t, 0, nums, k);
        assert(a.skip(i) + fill_from(t, 0, nums, k) =~= fill_from(t, 0, nums, k));
    }
}

/// A template shows its plain text as it is, and each `{}` as the next number in decimal.
pub proof fn law_template_shows_its_numbers(
    plain: Seq<char>,
    rest: Seq<char>,
    nums: Seq<u128>,
    k: int,
)
    requires
        forall|j: int| 0 <= j < plain.len() ==> #[trigger] plain[j] != '{',
        0 <= k < nums.len(),
    ensures
        filled(plain, nums) == plain,
        fill_from(plain + seq!['{', '}'] + rest, 0, nums, k) == plain + dec(nums[k] as nat)
            + fill_from(rest, 0, nums, k + 1),
{
    let none = Seq::<char>::empty();
    lemma_fill_plain(plain, none, 0, nums, 0);
    assert(plain + none =~= plain);
    assert(plain.skip(0) =~= plain);
    assert(fill_from(none, 0, nums, 0) =~= none);
    assert(plain.skip(0) + fill_from(none, 0, nums, 0) =~= plain);
    let t = seq!['{', '}'] + rest;
    assert(plain + seq!['{', '}'] + rest =~= plain + t);
    lemma_fill_plain(plain, t, 0, nums, k);
    assert(t[0] == '{' && t[1] == '}');
    lemma_fill_shift(seq!['{', '}'], rest, 0, nums, k + 1);
    assert(fill_from(t, 0, nums, k) == dec(nums[k] as nat) + fill_from(t, 2, nums, k + 1));
    assert(plain + (dec(nums[k] as nat) + fill_from(rest, 0, nums, k + 1)) =~= plain + dec(
        nums[k] as nat,
    ) + fill_from(rest, 0, nums, k + 1));
}

proof fn lemma_quot(a: int, b: int)
    requires
        0 <= a,
        0 < b,
    ensures
        (a / b) * b <= a < (a / b + 1) * b,
        a / b >= 0,
{
    vstd::arithmetic::div_mod::lemma_fundamental_div_mod(a, b);
    vstd::arithmetic::div_mod::lemma_mod_bound(a, b);
    vstd::arithmetic::div_mod::lemma_div_pos_is_pos(a, b);
    assert(b * (a / b) == (a / b) * b) by (nonlinear_arith);
    assert((a / b + 1) * b == (a / b) * b + b) by (nonlinear_arith);
}

/// A share is the percentage rounded down: of a part no larger than the whole at most a
/// hundred, of the whole exactly that, and of nothing zero.
pub proof fn law_share_is_a_percentage(part: u64, whole: u64)
    ensures
        whole > 0 ==> share_of(part, whole) * whole <= 100 * part < (share_of(part, whole) + 1)
            * whole,
        whole > 0 && part <= whole ==> share_of(part, whole) <= 100,
        whole > 0 ==> share_of(whole, whole) == 100,
        share_of(part, 0) == 0,
{
    if whole > 0 {
        lemma_quot(100 * part, whole as int);
        lemma_quot(100 * whole, whole as int);
        let s = share_of(part, whole) as int;
        let f = share_of(whole, whole) as int;
        assert(f * whole <= 100 * whole < (f + 1) * whole);
        assert(f == 100) by (nonlinear_arith)
            requires
                f * whole <= 100 * whole,
                100 * whole < (f + 1) * whole,
                whole > 0,
        ;
        if part <= whole {
            assert(s <= 100) by (nonlinear_arith)
                requires
                    s * whole <= 100 * part,
                    part <= whole,
                    whole > 0,
            ;
        }
    }
}

/// Time per item is the microseconds over the items, rounded down, and zero without items.
pub proof fn law_time_per_item(ms: u64, n: u64)
    ensures
        us_wide(ms, 0) == 0 && us_per(ms, 0) == 0,
        n > 0 ==> us_wide(ms, n) * n <= 1000 * ms < (us_wide(ms, n) + 1) * n,
        ms <= u64::MAX / 1000 ==> us_per(ms, n) == us_wide(ms, n),
{
    if n > 0 {
        lemma_quot(ms * 1000, n as int);
    }
}

/// Sizes are shown in whole units: mebibytes of bytes and of kilobytes, milliseconds of
/// nanoseconds.
pub proof fn law_units_are_whole(x: u64)
    ensures
        mib_of_bytes(x) * 1048576 <= x < (mib_of_bytes(x) + 1) * 1048576,
        mib_of_kb(x) * 1024 <= x < (mib_of_kb(x) + 1) * 1024,
        ms_of(x) * 1000000 <= x < (ms_of(x) + 1) * 1000000,
{
}

proof fn lemma_total_push(s: Seq<u64>, x: u64)
    ensures
        sat_total(s.push(x)) == crate::time::sat_add(sat_total(s), x),
{
    assert(s.push(x).drop_last() =~= s);
}

/// The write stage is the sum of its thirteen parts.
pub proof fn law_write_stage_is_its_parts(s: IbdPerfSample)
    requires
        s.write.class_a_ms + s.write.ensure_ms + s.write.structural_ms + s.write.class_c_ms
            + s.write.sh_ms + s.write.utxo_ms + s.write.tweak_ms + s.write.cache_tip_ms
            + s.write.recent_pub_ms + s.write.pins_ms + s.write.head_sub_ms
            + s.write.drain_join_ms + s.write.dequeue_ms <= u64::MAX,
    ensures
        write_of(s) == s.write.class_a_ms + s.write.ensure_ms + s.write.structural_ms
            + s.write.class_c_ms + s.write.sh_ms + s.write.utxo_ms + s.write.tweak_ms
            + s.write.cache_tip_ms + s.write.recent_pub_ms + s.write.pins_ms
            + s.write.head_sub_ms + s.write.drain_join_ms + s.write.dequeue_ms,
{
    let w = s.write;
    let e = Seq::<u64>::empty();
    let a = e.push(w.class_a_ms);
    let b = a.push(w.ensure_ms);
    let c = b.push(w.structural_ms);
    let d = c.push(w.class_c_ms);
    let f = d.push(w.sh_ms);
    let g = f.push(w.utxo_ms);
    let h = g.push(w.tweak_ms);
    let i = h.push(w.cache_tip_ms);
    let j = i.push(w.recent_pub_ms);
    let k = j.push(w.pins_ms);
    let l = k.push(w.head_sub_ms);
    let m = l.push(w.drain_join_ms);
    let n = m.push(w.dequeue_ms);
    assert(sat_total(e) == 0);
    lemma_total_push(e, w.class_a_ms);
    lemma_total_push(a, w.ensure_ms);
    lemma_total_push(b, w.structural_ms);
    lemma_total_push(c, w.class_c_ms);
    lemma_total_push(d, w.sh_ms);
    lemma_total_push(f, w.utxo_ms);
    lemma_total_push(g, w.tweak_ms);
    lemma_total_push(h, w.cache_tip_ms);
    lemma_total_push(i, w.recent_pub_ms);
    lemma_total_push(j, w.pins_ms);
    lemma_total_push(k, w.head_sub_ms);
    lemma_total_push(l, w.drain_join_ms);
    lemma_total_push(m, w.dequeue_ms);
    assert(n =~= w.parts_ms());
}

/// The load stage is pinning and assembling, the load thread is busy with its six steps, and
/// a plan takes its six parts.
pub proof fn law_load_and_plan_are_their_parts(s: IbdPerfSample)
    ensures
        s.load_ms + s.connect_ms <= u64::MAX ==> load_wall_of(s) == s.load_ms + s.connect_ms,
        s.thr_load_pack_ms + s.thr_load_clone_ms + s.thr_load_stamp_ms + s.thr_load_pin_ms
            + s.thr_load_asm_ms + s.thr_load_prune_ms <= u64::MAX ==> load_busy_of(s)
            == s.thr_load_pack_ms + s.thr_load_clone_ms + s.thr_load_stamp_ms + s.thr_load_pin_ms
            + s.thr_load_asm_ms + s.thr_load_prune_ms,
        s.arch_prep_assign_ms + s.arch_prep_collect_ms + s.arch_prep_inflight_ms
            + s.arch_prep_head_ms + s.arch_prep_stamp_ms + s.arch_prep_finish_ms <= u64::MAX
            ==> plan_batch_of(s) == s.arch_prep_assign_ms + s.arch_prep_collect_ms
            + s.arch_prep_inflight_ms + s.arch_prep_head_ms + s.arch_prep_stamp_ms
            + s.arch_prep_finish_ms,
{
}

proof fn lemma_total_covers(s: Seq<u64>, i: int)
    requires
        0 <= i < s.len(),
    ensures
        sat_total(s) >= s[i],
    decreases s.len(),
{
    if i < s.len() - 1 {
        lemma_total_covers(s.drop_last(), i);
        assert(s.drop_last()[i] == s[i]);
    }
}

/// What is accounted for covers the body queue, the requests, the stored parents, the pins
/// and the confirm queues' wire.
pub proof fn law_accounted_covers_every_owner(s: IbdPerfSample)
    ensures
        accounted_of(s) * 1048576 + 1048576 > s.bq_bytes,
        accounted_of(s) * 1048576 + 1048576 > s.owned.inflight_bytes,
        accounted_of(s) * 1048576 + 1048576 > s.owned.pstore_bytes,
        accounted_of(s) * 1048576 + 1048576 > s.owned.recent_pin_bytes,
        accounted_of(s) * 1048576 + 1048576 > s.conf_pipe.load_wire_bytes,
        accounted_of(s) * 1048576 + 1048576 > s.conf_pipe.script_wire_bytes,
        accounted_of(s) * 1048576 + 1048576 > s.conf_pipe.write_wire_bytes,
        accounted_of(s) * 1048576 + 1048576 > s.owned.head.fuse8_bytes,
        accounted_of(s) * 1048576 + 1048576 > s.owned.head.mphf_g_bytes,
        accounted_of(s) * 1048576 + 1048576 > s.owned.head.open_keys_bytes,
        accounted_of(s) * 1048576 + 1048576 > s.owned.head.class_c_l2_bytes,
{
    let p = accounted_parts(s);
    lemma_total_covers(p, 0);
    lemma_total_covers(p, 1);
    lemma_total_covers(p, 2);
    lemma_total_covers(p, 3);
    lemma_total_covers(p, 6);
    lemma_total_covers(p, 7);
    lemma_total_covers(p, 8);
    lemma_total_covers(p, 9);
    lemma_total_covers(p, 10);
}

/// A confirm phase is slow from a second per block on for the tables or the script hashes,
/// or from five seconds per block on for the load or the write stage; without blocks it is
/// not.
pub proof fn law_slow_phase(s: IbdPerfSample)
    ensures
        s.phase_blks == 0 ==> !phase_slow(s),
        s.phase_blks > 0 ==> (phase_slow(s) <==> s.write.class_c_ms >= 1000 * s.phase_blks
            || s.write.sh_ms >= 1000 * s.phase_blks || load_wall_of(s) >= 5000 * s.phase_blks
            || write_of(s) >= 5000 * s.phase_blks),
{
    let n = s.phase_blks as int;
    if n > 0 {
        lemma_per_block(s.write.class_c_ms as int, n, 1000);
        lemma_per_block(s.write.sh_ms as int, n, 1000);
        lemma_per_block(load_wall_of(s) as int, n, 5000);
        lemma_per_block(write_of(s) as int, n, 5000);
    }
}

proof fn lemma_per_block(ms: int, n: int, limit: int)
    requires
        0 <= ms,
        0 < n,
        0 < limit,
    ensures
        ms / n >= limit <==> ms >= limit * n,
{
    lemma_quot(ms, n);
    let q = ms / n;
    assert(q >= limit ==> ms >= limit * n) by (nonlinear_arith)
        requires
            q * n <= ms,
            n > 0,
    ;
    assert(q < limit ==> ms < limit * n) by (nonlinear_arith)
        requires
            ms < (q + 1) * n,
            n > 0,
    ;
}

proof fn lemma_word(w: Seq<char>, rest: Seq<char>)
    requires
        forall|i: int| 0 <= i < w.len() ==> !is_space(#[trigger] w[i]),
        rest.len() == 0 || is_space(rest[0]),
    ensures
        word_prefix(w + rest) == w,
    decreases w.len(),
{
    let all = w + rest;
    if w.len() == 0 {
        assert(all =~= rest);
        assert(word_prefix(all) =~= w);
    } else {
        let v = w.drop_first();
        assert(all[0] == w[0]);
        assert(all.drop_first() =~= v + rest);
        assert forall|i: int| 0 <= i < v.len() implies !is_space(#[trigger] v[i]) by {
            assert(v[i] == w[i + 1]);
        }
        lemma_word(v, rest);
        assert(seq![w[0]] + v =~= w);
    }
}

proof fn lemma_first_word(pad: Seq<char>, w: Seq<char>, rest: Seq<char>)
    requires
        forall|i: int| 0 <= i < pad.len() ==> is_space(#[trigger] pad[i]),
        w.len() > 0,
        forall|i: int| 0 <= i < w.len() ==> !is_space(#[trigger] w[i]),
        rest.len() == 0 || is_space(rest[0]),
    ensures
        first_word(pad + (w + rest)) == w,
    decreases pad.len(),
{
    let all = pad + (w + rest);
    if pad.len() == 0 {
        assert(all =~= w + rest);
        assert(all[0] == w[0]);
        lemma_word(w, rest);
    } else {
        let p = pad.drop_first();
        assert(all[0] == pad[0]);
        assert(all.drop_first() =~= p + (w + rest));
        assert forall|i: int| 0 <= i < p.len() implies is_space(#[trigger] p[i]) by {
            assert(p[i] == pad[i + 1]);
        }
        lemma_first_word(p, w, rest);
    }
}

/// A size field reads as the decimal number behind its blanks, up to the next blank.
pub proof fn law_size_field_reads_its_number(pad: Seq<char>, n: u64, rest: Seq<char>)
    requires
        forall|i: int| 0 <= i < pad.len() ==> is_space(#[trigger] pad[i]),
        rest.len() == 0 || is_space(rest[0]),
    ensures
        kb_field(pad + (dec(n as nat) + rest)) == n,
{
    let d = dec(n as nat);
    law_decimal_reads_back(n as nat);
    assert forall|i: int| 0 <= i < d.len() implies !is_space(#[trigger] d[i]) by {
        assert(is_digit(d[i]));
    }
    lemma_first_word(pad, d, rest);
    assert(is_digit(d[0]));
    assert(d[0] != '+');
    assert(number_of(d) == Some(n));
}

proof fn lemma_after(p: Seq<char>, rest: Seq<char>)
    ensures
        crate::proc_rss::starts_with(p + rest, p),
        crate::proc_rss::after(p + rest, p) == rest,
{
    assert((p + rest).take(p.len() as int) =~= p);
    assert((p + rest).skip(p.len() as int) =~= rest);
}

/// Each line of the process status sets the figure that it names, and no other: resident
/// memory, its greatest, heap, and file-backed memory, to which shared memory is added.
pub proof fn law_status_lines_set_their_figures(r: ProcRss, pad: Seq<char>, n: u64, rest: Seq<char>)
    requires
        forall|i: int| 0 <= i < pad.len() ==> is_space(#[trigger] pad[i]),
        rest.len() == 0 || is_space(rest[0]),
        r.file_kb + n <= u64::MAX,
    ensures
        ({
            let v = pad + (dec(n as nat) + rest);
            &&& status_line(r, "VmRSS:"@ + v) == (ProcRss { rss_kb: n, ..r })
            &&& status_line(r, "VmHWM:"@ + v) == (ProcRss { hwm_kb: n, ..r })
            &&& status_line(r, "RssAnon:"@ + v) == (ProcRss { anon_kb: n, ..r })
            &&& status_line(r, "RssFile:"@ + v) == (ProcRss { file_kb: n, ..r })
            &&& status_line(r, "RssShmem:"@ + v) == (ProcRss {
                file_kb: (r.file_kb + n) as u64,
                ..r
            })
        }),
{
    let v = pad + (dec(n as nat) + rest);
    law_size_field_reads_its_number(pad, n, rest);
    reveal_strlit("VmRSS:");
    reveal_strlit("VmHWM:");
    reveal_strlit("RssAnon:");
    reveal_strlit("RssFile:");
    reveal_strlit("RssShmem:");
    lemma_after("VmRSS:"@, v);
    lemma_after("VmHWM:"@, v);
    lemma_after("RssAnon:"@, v);
    lemma_after("RssFile:"@, v);
    lemma_after("RssShmem:"@, v);
    let b = "VmHWM:"@ + v;
    assert(b.take(6)[2] == 'H');
    let c = "RssAnon:"@ + v;
    assert(c.take(6)[0] == 'R');
    let d = "RssFile:"@ + v;
    assert(d.take(6)[0] == 'R');
    assert(d.take(8)[3] == 'F');
    let e = "RssShmem:"@ + v;
    assert(e.take(6)[0] == 'R');
    assert(e.take(8)[3] == 'S');
}

proof fn lemma_line_shift(p: Seq<char>, t: Seq<char>, i: int)
    requires
        0 <= i <= t.len(),
    ensures
        crate::proc_rss::line_end(p + t, p.len() + i) == p.len() + crate::proc_rss::line_end(t, i),
    decreases t.len() - i,
{
    if i < t.len() {
        assert((p + t)[p.len() + i] == t[i]);
        if t[i] != '\n' {
            lemma_line_shift(p, t, i + 1);
        }
    }
}

proof fn lemma_lines_shift(r: ProcRss, p: Seq<char>, t: Seq<char>, i: int, rollup: bool)
    requires
        0 <= i,
    ensures
        lines_from(r, p + t, p.len() + i, rollup) == lines_from(r, t, i, rollup),
    decreases t.len() + 1 - i,
{
    if i < t.len() {
        lemma_line_shift(p, t, i);
        crate::proc_rss::lemma_line_end(t, i);
        let e = crate::proc_rss::line_end(t, i);
        let line = t.subrange(i, e);
        assert((p + t).subrange(p.len() + i, p.len() + e) =~= line);
        let next = if rollup {
            crate::proc_rss::rollup_line(r, line)
        } else {
            status_line(r, line)
        };
        lemma_lines_shift(next, p, t, e + 1, rollup);
    }
}

proof fn lemma_line_end_at(line: Seq<char>, t: Seq<char>, i: int)
    requires
        0 <= i <= line.len(),
        forall|j: int| 0 <= j < line.len() ==> #[trigger] line[j] != '\n',
    ensures
        crate::proc_rss::line_end(line + seq!['\n'] + t, i) == line.len(),
    decreases line.len() - i,
{
    let all = line + seq!['\n'] + t;
    if i < line.len() {
        assert(all[i] == line[i]);
        lemma_line_end_at(line, t, i + 1);
    } else {
        assert(all[i] == '\n');
    }
}

/// The status is taken in line by line: the first line, then what follows it.
pub proof fn law_status_is_read_by_lines(r: ProcRss, line: Seq<char>, t: Seq<char>)
    requires
        forall|j: int| 0 <= j < line.len() ==> #[trigger] line[j] != '\n',
    ensures
        lines_from(r, line + seq!['\n'] + t, 0, false) == lines_from(
            status_line(r, line),
            t,
            0,
            false,
        ),
{
    let all = line + seq!['\n'] + t;
    lemma_line_end_at(line, t, 0);
    assert(all.subrange(0, line.len() as int) =~= line);
    lemma_lines_shift(status_line(r, line), line + seq!['\n'], t, 0, false);
}

/// Without a split, file-backed memory is what is resident beyond the heap; a given split is
/// kept.
pub proof fn law_file_memory_is_the_residue(r: ProcRss)
    ensures
        r.file_kb > 0 ==> residual_file(r) == r,
        r.file_kb == 0 && 0 < r.anon_kb <= r.rss_kb ==> residual_file(r).file_kb + r.anon_kb
            == r.rss_kb,
        residual_file(r).rss_kb == r.rss_kb && residual_file(r).anon_kb == r.anon_kb,
{
}

/// A text holds whatever stands somewhere in it, and nothing longer than itself.
pub proof fn law_text_holds_its_parts(a: Seq<char>, n: Seq<char>, b: Seq<char>)
    ensures
        has_text(a + n + b, n),
        n.len() > b.len() ==> !has_text(b, n),
        has_text(b, n) ==> has_text(a + b, n),
{
    let all = a + n + b;
    assert(all.subrange(a.len() as int, (a.len() + n.len()) as int) =~= n);
    assert(text_at(all, n, a.len() as int));
    if has_text(b, n) {
        let i = choose|i: int| #[trigger] text_at(b, n, i);
        assert((a + b).subrange(a.len() + i, a.len() + i + n.len()) =~= b.subrange(
            i,
            i + n.len(),
        ));
        assert(text_at(a + b, n, a.len() + i));
    }
}

/// A text that is held is one piece of the text around it.
pub proof fn law_held_text_is_one_piece(t: Seq<char>, n: Seq<char>) -> (r: (Seq<char>, Seq<char>))
    requires
        has_text(t, n),
    ensures
        r.0 + n + r.1 == t,
{
    let i = choose|i: int| #[trigger] text_at(t, n, i);
    let a = t.take(i);
    let b = t.skip(i + n.len());
    assert(a + n + b =~= t) by {
        assert(t.subrange(i, i + n.len()) == n);
        assert forall|k: int| 0 <= k < t.len() implies (a + n + b)[k] == t[k] by {
            if i <= k < i + n.len() {
                assert(t.subrange(i, i + n.len())[k - i] == t[k]);
            }
        }
    }
    (a, b)
}

/// Counters that wrap add up but for whole turns, and limits that stop never pass their end.
pub proof fn law_bounded_sums(a: u64, b: u64)
    ensures
        wrap_add(a, b) == (a + b) % 0x1_0000_0000_0000_0000,
        sat_add(a, b) == a + b || a + b > u64::MAX && sat_add(a, b) == u64::MAX,
        sat_sub(a, b) == a - b || a < b && sat_sub(a, b) == 0,
        sat_sub(sat_add(a, b), b) <= a,
{
}

/// What is ready is ahead of the tip by the heights between them, and never behind it.
pub proof fn law_confirm_lag_is_the_distance(tip: u32, ready: u32)
    ensures
        ready >= tip ==> confirm_lag(Some(tip), ready) + tip == ready,
        ready < tip ==> confirm_lag(Some(tip), ready) == 0,
        confirm_lag(None, ready) == ready,
{
}

} // verus!
