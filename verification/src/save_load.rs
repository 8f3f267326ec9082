//! Save-state serialisation primitives.
//!
//! A save state is a byte stack: every `save_*` function appends the bytes of
//! one value to the end of the buffer, and every `load_*` function takes the
//! bytes of one value back off the end. Components therefore load their
//! fields in the reverse of the order in which they saved them.
//! Integers are stored little-endian.
use vstd::prelude::*;
use vstd::arithmetic::div_mod::{lemma_div_denominator, lemma_mod_breakdown, lemma_small_mod};

verus! {

broadcast use vstd::layout::layout_of_primitives;

/// `256^n`: the number of distinct values that `n` bytes can hold.
pub open spec fn byte_weight(n: nat) -> nat
    decreases n,
{
    if n == 0 {
        1
    } else {
        256 * byte_weight((n - 1) as nat)
    }
}

/// The `n` low bytes of `value`, least significant first.
pub open spec fn le_bytes(value: nat, n: nat) -> Seq<u8>
    decreases n,
{
    if n == 0 {
        Seq::empty()
    } else {
        seq![(value % 256) as u8] + le_bytes(value / 256, (n - 1) as nat)
    }
}

/// The number that a little-endian byte sequence denotes.
pub open spec fn le_value(bytes: Seq<u8>) -> nat
    decreases bytes.len(),
{
    if bytes.len() == 0 {
        0
    } else {
        bytes[0] as nat + 256 * le_value(bytes.drop_first())
    }
}

/// The number of bytes in a `usize` on this machine.
pub open spec fn usize_byte_len() -> nat {
    (usize::BITS / 8) as nat
}

/// The bytes that `save_vec_usize` writes for a sequence of `usize` values:
/// each value's little-endian bytes, in sequence order.
pub open spec fn usize_seq_bytes(values: Seq<usize>) -> Seq<u8>
    decreases values.len(),
{
    if values.len() == 0 {
        Seq::empty()
    } else {
        le_bytes(values[0] as nat, usize_byte_len()) + usize_seq_bytes(values.drop_first())
    }
}

/// The last `n` bytes of a buffer (those that a load of `n` bytes consumes).
pub open spec fn top_bytes(buff: Seq<u8>, n: nat) -> Seq<u8> {
    buff.subrange(buff.len() - n, buff.len() as int)
}

/// A buffer with its last `n` bytes taken off.
pub open spec fn without_top(buff: Seq<u8>, n: nat) -> Seq<u8> {
    buff.subrange(0, buff.len() - n)
}

pub proof fn lemma_byte_weight_positive(n: nat)
    ensures
        byte_weight(n) > 0,
    decreases n,
{
    if n > 0 {
        lemma_byte_weight_positive((n - 1) as nat);
    }
}

pub proof fn lemma_byte_weight_monotonic(m: nat, n: nat)
    requires
        m <= n,
    ensures
        byte_weight(m) <= byte_weight(n),
    decreases n,
{
    if m < n {
        lemma_byte_weight_monotonic(m, (n - 1) as nat);
        lemma_byte_weight_positive((n - 1) as nat);
    }
}

proof fn lemma_byte_weight_values()
    ensures
        byte_weight(1) == 256,
        byte_weight(2) == 0x1_0000,
        byte_weight(4) == 0x1_0000_0000,
        byte_weight(8) == 0x1_0000_0000_0000_0000,
{
    reveal_with_fuel(byte_weight, 9);
}

pub proof fn lemma_le_bytes_len(value: nat, n: nat)
    ensures
        le_bytes(value, n).len() == n,
    decreases n,
{
    if n > 0 {
        lemma_le_bytes_len(value / 256, (n - 1) as nat);
    }
}

/// A little-endian byte sequence denotes a number below `256^len`.
pub proof fn lemma_le_value_bound(bytes: Seq<u8>)
    ensures
        le_value(bytes) < byte_weight(bytes.len()),
    decreases bytes.len(),
{
    if bytes.len() > 0 {
        lemma_le_value_bound(bytes.drop_first());
    }
}

/// Encoding `n` bytes and decoding them gives the value modulo `256^n`.
pub proof fn lemma_le_value_of_bytes(value: nat, n: nat)
    ensures
        le_value(le_bytes(value, n)) == value % byte_weight(n),
    decreases n,
{
    if n > 0 {
        let rest = le_bytes(value / 256, (n - 1) as nat);
        lemma_le_value_of_bytes(value / 256, (n - 1) as nat);
        assert(le_bytes(value, n).drop_first() =~= rest);
        lemma_byte_weight_positive((n - 1) as nat);
        lemma_mod_breakdown(value as int, 256, byte_weight((n - 1) as nat) as int);
    }
}

/// Decoding bytes and encoding the value again gives the same bytes.
pub proof fn lemma_le_bytes_of_value(bytes: Seq<u8>)
    ensures
        le_bytes(le_value(bytes), bytes.len()) == bytes,
    decreases bytes.len(),
{
    if bytes.len() > 0 {
        let v: nat = le_value(bytes);
        let rest = bytes.drop_first();
        lemma_le_bytes_of_value(rest);
        assert(v % 256 == bytes[0] as nat && v / 256 == le_value(rest)) by (nonlinear_arith)
            requires
                v == bytes[0] as nat + 256 * le_value(rest),
                bytes[0] < 256,
        ;
        assert(le_bytes(v, bytes.len()) =~= bytes);
    }
}

/// Appending one more byte to an encoding of `n` bytes.
proof fn lemma_le_bytes_push(value: nat, n: nat)
    ensures
        le_bytes(value, n + 1) == le_bytes(value, n).push(((value / byte_weight(n)) % 256) as u8),
    decreases n,
{
    if n == 0 {
        reveal_with_fuel(le_bytes, 2);
        assert(le_bytes(value, 1) =~= seq![(value % 256) as u8]);
        assert(byte_weight(0) == 1);
        assert(value / 1 == value);
    } else {
        lemma_le_bytes_push(value / 256, (n - 1) as nat);
        lemma_byte_weight_positive((n - 1) as nat);
        lemma_div_denominator(value as int, 256, byte_weight((n - 1) as nat) as int);
        assert(byte_weight(n) == 256 * byte_weight((n - 1) as nat));
        assert((value / 256) / byte_weight((n - 1) as nat) == value / byte_weight(n));
        assert(le_bytes(value, n + 1) =~= le_bytes(value, n).push(
            ((value / byte_weight(n)) % 256) as u8,
        ));
    }
}

/// A decoded value below `256^n` determines its encoding.
pub proof fn lemma_le_bytes_injective(a: nat, b: nat, n: nat)
    requires
        a < byte_weight(n),
        b < byte_weight(n),
        le_bytes(a, n) == le_bytes(b, n),
    ensures
        a == b,
{
    lemma_le_value_of_bytes(a, n);
    lemma_le_value_of_bytes(b, n);
    lemma_small_mod(a, byte_weight(n));
    lemma_small_mod(b, byte_weight(n));
}

pub proof fn lemma_usize_byte_len()
    ensures
        usize_byte_len() == 4 || usize_byte_len() == 8,
        byte_weight(usize_byte_len()) == usize::MAX + 1,
{
    lemma_byte_weight_values();
}

pub proof fn lemma_usize_seq_bytes_len(values: Seq<usize>)
    ensures
        usize_seq_bytes(values).len() == values.len() * usize_byte_len(),
    decreases values.len(),
{
    if values.len() > 0 {
        lemma_usize_seq_bytes_len(values.drop_first());
        lemma_le_bytes_len(values[0] as nat, usize_byte_len());
        assert(values.len() * usize_byte_len() == usize_byte_len() + (values.len() - 1)
            * usize_byte_len()) by (nonlinear_arith);
    }
}

proof fn lemma_usize_seq_bytes_push(values: Seq<usize>, x: usize)
    ensures
        usize_seq_bytes(values.push(x)) == usize_seq_bytes(values) + le_bytes(
            x as nat,
            usize_byte_len(),
        ),
    decreases values.len(),
{
    if values.len() == 0 {
        assert(values.push(x).drop_first() =~= Seq::<usize>::empty());
        assert(usize_seq_bytes(Seq::<usize>::empty()) =~= Seq::<u8>::empty());
        assert(usize_seq_bytes(values) =~= Seq::<u8>::empty());
        assert(usize_seq_bytes(values.push(x)) =~= le_bytes(x as nat, usize_byte_len()));
    } else {
        lemma_usize_seq_bytes_push(values.drop_first(), x);
        assert(values.push(x).drop_first() =~= values.drop_first().push(x));
        assert(usize_seq_bytes(values.push(x)) =~= usize_seq_bytes(values) + le_bytes(
            x as nat,
            usize_byte_len(),
        ));
    }
}

/// Two sequences of `usize` of the same length with the same bytes are equal.
pub proof fn lemma_usize_seq_bytes_injective(a: Seq<usize>, b: Seq<usize>)
    requires
        a.len() == b.len(),
        usize_seq_bytes(a) == usize_seq_bytes(b),
    ensures
        a == b,
    decreases a.len(),
{
    if a.len() > 0 {
        let w: nat = usize_byte_len();
        lemma_le_bytes_len(a[0] as nat, w);
        lemma_le_bytes_len(b[0] as nat, w);
        let ea = le_bytes(a[0] as nat, w);
        let eb = le_bytes(b[0] as nat, w);
        assert(ea =~= usize_seq_bytes(a).subrange(0, w as int));
        assert(eb =~= usize_seq_bytes(b).subrange(0, w as int));
        assert(usize_seq_bytes(a.drop_first()) =~= usize_seq_bytes(a).subrange(
            w as int,
            usize_seq_bytes(a).len() as int,
        ));
        assert(usize_seq_bytes(b.drop_first()) =~= usize_seq_bytes(b).subrange(
            w as int,
            usize_seq_bytes(b).len() as int,
        ));
        lemma_usize_byte_len();
        lemma_le_bytes_injective(a[0] as nat, b[0] as nat, w);
        lemma_usize_seq_bytes_injective(a.drop_first(), b.drop_first());
        assert(a =~= b) by {
            assert forall|i: int| 0 <= i < a.len() implies a[i] == b[i] by {
                if i > 0 {
                    assert(a[i] == a.drop_first()[i - 1]);
                    assert(b[i] == b.drop_first()[i - 1]);
                }
            }
        }
    }
}

/// Byte `i` of a little-endian encoding is digit `i` of the value in base
/// 256: the least significant byte comes first.
pub proof fn lemma_le_bytes_digits(value: nat, n: nat, i: nat)
    requires
        i < n,
    ensures
        le_bytes(value, n)[i as int] == ((value / byte_weight(i)) % 256) as u8,
    decreases i,
{
    lemma_le_bytes_len(value / 256, (n - 1) as nat);
    if i == 0 {
        assert(byte_weight(0) == 1);
        assert(value / 1 == value);
    } else {
        lemma_le_bytes_digits(value / 256, (n - 1) as nat, (i - 1) as nat);
        lemma_byte_weight_positive((i - 1) as nat);
        lemma_div_denominator(value as int, 256, byte_weight((i - 1) as nat) as int);
    }
}

/// Saving an integer of `n` bytes and then loading one of `n` bytes gives the
/// same value back and leaves the buffer as it was before the save.
pub proof fn lemma_save_load_integer(buff: Seq<u8>, value: nat, n: nat)
    requires
        value < byte_weight(n),
    ensures
        without_top(buff + le_bytes(value, n), n) == buff,
        le_value(top_bytes(buff + le_bytes(value, n), n)) == value,
{
    lemma_le_bytes_len(value, n);
    let saved = buff + le_bytes(value, n);
    assert(without_top(saved, n) =~= buff);
    assert(top_bytes(saved, n) =~= le_bytes(value, n));
    lemma_le_value_of_bytes(value, n);
    lemma_small_mod(value, byte_weight(n));
}

/// A `bool` saved and loaded again is the same `bool`.
pub proof fn lemma_save_load_bool(buff: Seq<u8>, b: bool)
    ensures
        buff.push(bool_byte(b)).drop_last() == buff,
        (buff.push(bool_byte(b)).last() != 0) == b,
{
    assert(buff.push(bool_byte(b)).drop_last() =~= buff);
}

/// A byte vector saved and loaded again into a vector of the same length is
/// the same vector, and the buffer is as it was.
pub proof fn lemma_save_load_vec(buff: Seq<u8>, data: Seq<u8>)
    ensures
        without_top(buff + data, data.len()) == buff,
        top_bytes(buff + data, data.len()) == data,
{
    assert(without_top(buff + data, data.len()) =~= buff);
    assert(top_bytes(buff + data, data.len()) =~= data);
}

/// A vector of `usize` saved with `save_vec_usize` and loaded with
/// `load_vec_usize` into a vector of the same length is the same vector, and
/// the buffer is as it was.
pub proof fn lemma_save_load_vec_usize(buff: Seq<u8>, saved: Seq<usize>, loaded: Seq<usize>)
    requires
        loaded.len() == saved.len(),
        usize_seq_bytes(loaded) == top_bytes(
            buff + usize_seq_bytes(saved),
            saved.len() * usize_byte_len(),
        ),
    ensures
        without_top(buff + usize_seq_bytes(saved), saved.len() * usize_byte_len()) == buff,
        loaded == saved,
{
    lemma_usize_seq_bytes_len(saved);
    let all = buff + usize_seq_bytes(saved);
    assert(without_top(all, saved.len() * usize_byte_len()) =~= buff);
    assert(top_bytes(all, saved.len() * usize_byte_len()) =~= usize_seq_bytes(saved));
    lemma_usize_seq_bytes_injective(loaded, saved);
}

/// Appends the `n` low bytes of `value`, least significant first.
fn save_le(buff: &mut Vec<u8>, value: u64, n: usize)
    requires
        n <= 8,
    ensures
        final(buff)@ == old(buff)@ + le_bytes(value as nat, n as nat),
{
    let mut rest: u64 = value;
    let mut i: usize = 0;
    assert(byte_weight(0) == 1);
    assert(value as nat / 1 == value as nat);
    while i < n
        invariant
            i <= n,
            buff@ == old(buff)@ + le_bytes(value as nat, i as nat),
            rest == value as nat / byte_weight(i as nat),
        decreases n - i,
    {
        proof {
            lemma_le_bytes_push(value as nat, i as nat);
            lemma_byte_weight_positive(i as nat);
            lemma_div_denominator(value as int, byte_weight(i as nat) as int, 256);
        }
        buff.push((rest % 256) as u8);
        rest = rest / 256;
        i = i + 1;
        assert(buff@ =~= old(buff)@ + le_bytes(value as nat, i as nat));
    }
}

/// Takes the last `n` bytes off the buffer and returns the number they
/// denote, read little-endian.
fn load_le(buff: &mut Vec<u8>, n: usize) -> (value: u64)
    requires
        n <= 8,
        old(buff)@.len() >= n,
    ensures
        final(buff)@ == without_top(old(buff)@, n as nat),
        value == le_value(top_bytes(old(buff)@, n as nat)),
{
    let at: usize = buff.len() - n;
    let tail = buff.split_off(at);
    let mut value: u64 = 0;
    let mut i: usize = n;
    while i > 0
        invariant
            i <= n <= 8,
            tail@.len() == n,
            value == le_value(tail@.subrange(i as int, n as int)),
            value < byte_weight((n - i) as nat),
        decreases i,
    {
        proof {
            lemma_byte_weight_monotonic((n - i + 1) as nat, 8);
            lemma_byte_weight_values();
        }
        i = i - 1;
        assert(tail@.subrange(i as int, n as int).drop_first() =~= tail@.subrange(
            i as int + 1,
            n as int,
        ));
        value = value * 256 + tail[i] as u64;
    }
    assert(tail@.subrange(0, n as int) =~= tail@);
    value
}

/// Appends the bytes of a `usize` (as many as the machine's `usize` has).
pub fn save_usize(buff: &mut Vec<u8>, data: usize)
    ensures
        final(buff)@ == old(buff)@ + le_bytes(data as nat, usize_byte_len()),
{
    let n: usize = core::mem::size_of::<usize>();
    save_le(buff, data as u64, n);
}

/// Takes the bytes of a `usize` off the end of the buffer.
pub fn load_usize(buff: &mut Vec<u8>, data: &mut usize)
    requires
        old(buff)@.len() >= usize_byte_len(),
    ensures
        final(buff)@ == without_top(old(buff)@, usize_byte_len()),
        *final(data) as nat == le_value(top_bytes(old(buff)@, usize_byte_len())),
{
    let n: usize = core::mem::size_of::<usize>();
    let value: u64 = load_le(buff, n);
    proof {
        lemma_le_value_bound(top_bytes(old(buff)@, usize_byte_len()));
        lemma_usize_byte_len();
    }
    *data = value as usize;
}

/// Appends one byte.
pub fn save_u8(buff: &mut Vec<u8>, data: u8)
    ensures
        final(buff)@ == old(buff)@.push(data),
{
    buff.push(data);
}

/// Takes the last byte off the buffer.
pub fn load_u8(buff: &mut Vec<u8>, data: &mut u8)
    requires
        old(buff)@.len() >= 1,
    ensures
        final(buff)@ == old(buff)@.drop_last(),
        *final(data) == old(buff)@.last(),
{
    *data = buff.pop().unwrap();
}

/// Appends the two bytes of a `u16`, least significant first.
pub fn save_u16(buff: &mut Vec<u8>, data: u16)
    ensures
        final(buff)@ == old(buff)@ + le_bytes(data as nat, 2),
{
    save_le(buff, data as u64, 2);
}

/// Takes the two bytes of a `u16` off the end of the buffer.
pub fn load_u16(buff: &mut Vec<u8>, data: &mut u16)
    requires
        old(buff)@.len() >= 2,
    ensures
        final(buff)@ == without_top(old(buff)@, 2),
        *final(data) as nat == le_value(top_bytes(old(buff)@, 2)),
{
    let value: u64 = load_le(buff, 2);
    proof {
        lemma_le_value_bound(top_bytes(old(buff)@, 2));
        lemma_byte_weight_values();
    }
    *data = value as u16;
}

/// Appends the four bytes of a `u32`, least significant first.
pub fn save_u32(buff: &mut Vec<u8>, data: u32)
    ensures
        final(buff)@ == old(buff)@ + le_bytes(data as nat, 4),
{
    save_le(buff, data as u64, 4);
}

/// Takes the four bytes of a `u32` off the end of the buffer.
pub fn load_u32(buff: &mut Vec<u8>, data: &mut u32)
    requires
        old(buff)@.len() >= 4,
    ensures
        final(buff)@ == without_top(old(buff)@, 4),
        *final(data) as nat == le_value(top_bytes(old(buff)@, 4)),
{
    let value: u64 = load_le(buff, 4);
    proof {
        lemma_le_value_bound(top_bytes(old(buff)@, 4));
        lemma_byte_weight_values();
    }
    *data = value as u32;
}

/// Appends the eight bytes of a `u64`, least significant first.
pub fn save_u64(buff: &mut Vec<u8>, data: u64)
    ensures
        final(buff)@ == old(buff)@ + le_bytes(data as nat, 8),
{
    save_le(buff, data, 8);
}

/// Takes the eight bytes of a `u64` off the end of the buffer.
pub fn load_u64(buff: &mut Vec<u8>, data: &mut u64)
    requires
        old(buff)@.len() >= 8,
    ensures
        final(buff)@ == without_top(old(buff)@, 8),
        *final(data) as nat == le_value(top_bytes(old(buff)@, 8)),
{
    *data = load_le(buff, 8);
}

/// The byte that stands for a `bool` in a save state.
pub open spec fn bool_byte(b: bool) -> u8 {
    if b {
        1
    } else {
        0
    }
}

/// Appends a `bool` as one byte, 1 for `true` and 0 for `false`.
pub fn save_bool(buff: &mut Vec<u8>, data: bool)
    ensures
        final(buff)@ == old(buff)@.push(bool_byte(data)),
{
    let byte: u8 = if data {
        1
    } else {
        0
    };
    save_u8(buff, byte);
}

/// Takes a `bool` off the end of the buffer: any nonzero byte reads as `true`.
pub fn load_bool(buff: &mut Vec<u8>, data: &mut bool)
    requires
        old(buff)@.len() >= 1,
    ensures
        final(buff)@ == old(buff)@.drop_last(),
        *final(data) == (old(buff)@.last() != 0),
{
    *data = buff.pop().unwrap() != 0;
}

/// Appends the bytes of a byte vector as they stand.
pub fn save_vec(buff: &mut Vec<u8>, data: &Vec<u8>)
    ensures
        final(buff)@ == old(buff)@ + data@,
{
    let mut i: usize = 0;
    while i < data.len()
        invariant
            i <= data@.len(),
            buff@ == old(buff)@ + data@.subrange(0, i as int),
        decreases data@.len() - i,
    {
        buff.push(data[i]);
        i = i + 1;
        assert(buff@ =~= old(buff)@ + data@.subrange(0, i as int));
    }
    assert(data@.subrange(0, i as int) =~= data@);
}

/// Replaces `data` with the last `data.len()` bytes of the buffer, which it
/// takes off: the length of `data` says how many bytes to load.
pub fn load_vec(buff: &mut Vec<u8>, data: &mut Vec<u8>)
    requires
        old(buff)@.len() >= old(data)@.len(),
    ensures
        final(buff)@ == without_top(old(buff)@, old(data)@.len()),
        final(data)@ == top_bytes(old(buff)@, old(data)@.len()),
{
    let at: usize = buff.len() - data.len();
    *data = buff.split_off(at);
}

/// Appends the bytes of each `usize` of the vector, in order.
pub fn save_vec_usize(buff: &mut Vec<u8>, data: &Vec<usize>)
    ensures
        final(buff)@ == old(buff)@ + usize_seq_bytes(data@),
{
    let mut i: usize = 0;
    while i < data.len()
        invariant
            i <= data@.len(),
            buff@ == old(buff)@ + usize_seq_bytes(data@.subrange(0, i as int)),
        decreases data@.len() - i,
    {
        proof {
            lemma_usize_seq_bytes_push(data@.subrange(0, i as int), data@[i as int]);
            assert(data@.subrange(0, i as int).push(data@[i as int]) =~= data@.subrange(
                0,
                i as int + 1,
            ));
        }
        save_usize(buff, data[i]);
        i = i + 1;
        assert(buff@ =~= old(buff)@ + usize_seq_bytes(data@.subrange(0, i as int)));
    }
    assert(data@.subrange(0, i as int) =~= data@);
}

/// Loads every element of `data` off the end of the buffer, the last element
/// first: the inverse of `save_vec_usize` for a vector of the same length.
pub fn load_vec_usize(buff: &mut Vec<u8>, data: &mut Vec<usize>)
    requires
        old(buff)@.len() >= old(data)@.len() * usize_byte_len(),
    ensures
        final(data)@.len() == old(data)@.len(),
        final(buff)@ == without_top(old(buff)@, old(data)@.len() * usize_byte_len()),
        usize_seq_bytes(final(data)@) == top_bytes(
            old(buff)@,
            old(data)@.len() * usize_byte_len(),
        ),
{
    let ghost w = usize_byte_len();
    let ghost n = data@.len();
    let ghost total = old(buff)@.len();
    let mut i: usize = data.len();
    proof {
        lemma_usize_byte_len();
    }
    while i > 0
        invariant
            w == usize_byte_len(),
            w == 4 || w == 8,
            i <= n,
            data@.len() == n,
            total == old(buff)@.len(),
            total >= n * w,
            buff@.len() == total - (n - i) * w,
            buff@ == old(buff)@.subrange(0, buff@.len() as int),
            usize_seq_bytes(data@.subrange(i as int, n as int)) == old(buff)@.subrange(
                buff@.len() as int,
                total as int,
            ),
        decreases i,
    {
        assert(buff@.len() >= w) by (nonlinear_arith)
            requires
                buff@.len() == total - (n - i) * w,
                total >= n * w,
                i >= 1,
                w >= 0,
        ;
        let ghost before = buff@;
        let mut value: usize = 0;
        load_usize(buff, &mut value);
        i = i - 1;
        let ghost prev = data@;
        data.set(i, value);
        proof {
            assert(data@.subrange(i as int + 1, n as int) =~= prev.subrange(i as int + 1, n as int));
            let rest = data@.subrange(i as int + 1, n as int);
            let top = top_bytes(before, w);
            lemma_le_value_bound(top);
            lemma_le_bytes_len(value as nat, w);
            assert(top.len() == w);
            lemma_le_bytes_of_value(top);
            assert(data@.subrange(i as int, n as int).drop_first() =~= rest);
            assert(usize_seq_bytes(data@.subrange(i as int, n as int)) =~= top + usize_seq_bytes(
                rest,
            ));
            assert(buff@.len() == total - (n - i) * w) by (nonlinear_arith)
                requires
                    buff@.len() == before.len() - w,
                    before.len() == total - (n - (i + 1)) * w,
            ;
            assert(top + old(buff)@.subrange(before.len() as int, total as int) =~= old(
                buff,
            )@.subrange(buff@.len() as int, total as int));
            assert(buff@ =~= old(buff)@.subrange(0, buff@.len() as int));
        }
    }
    assert(data@.subrange(0, n as int) =~= data@);
}

} // verus!
