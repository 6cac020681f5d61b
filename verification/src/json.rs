//! The metadata grammar: the JSON rendering of volume metadata and of OCR
//! annotation rows, as it appears inside a volume archive. The writer emits
//! one canonical rendering — fixed key order, no whitespace — and the
//! reader accepts that rendering with any inter-token spacing (spaced
//! documents are normalized first; see [`strip_json_ws`]). Reading what
//! was written gives back the original record, which is proved below and
//! is what makes exporting and re-importing a volume lossless.
//!
//! Text is treated as raw bytes: inside a JSON string every byte stands for
//! itself except `"`, `\` and the control bytes, which are escaped in the
//! usual way (`\"`, `\\`, `\n`, `\r`, `\t`, and `\u00XX` for the rest).

use vstd::prelude::*;
use vstd::string::StringSliceAdditionalSpecFns;

verus! {

// --- byte classes and small helpers ---------------------------------------

/// ASCII decimal digit.
pub open spec fn is_digit(b: u8) -> bool {
    48 <= b <= 57
}

/// Lowercase hexadecimal digit.
pub open spec fn is_hex(b: u8) -> bool {
    (48 <= b <= 57) || (97 <= b <= 102)
}

/// The value of a lowercase hexadecimal digit.
pub open spec fn hex_val(b: u8) -> nat {
    if b <= 57 {
        (b - 48) as nat
    } else {
        (b - 87) as nat
    }
}

/// The lowercase hexadecimal digit of a value below 16.
pub open spec fn hex_digit(n: nat) -> u8 {
    if n < 10 {
        (48 + n) as u8
    } else {
        (87 + n) as u8
    }
}

/// `true`, `false` and `null`, as bytes.
pub open spec fn tok_true() -> Seq<u8> {
    seq![116u8, 114u8, 117u8, 101u8]
}

pub open spec fn tok_false() -> Seq<u8> {
    seq![102u8, 97u8, 108u8, 115u8, 101u8]
}

pub open spec fn tok_null() -> Seq<u8> {
    seq![110u8, 117u8, 108u8, 108u8]
}

// --- canonical encodings ----------------------------------------------------

/// The decimal digits of `n`, most significant first.
pub open spec fn dec_digits(n: nat) -> Seq<u8>
    decreases n,
{
    if n < 10 {
        seq![(48 + n) as u8]
    } else {
        dec_digits(n / 10).push((48 + n % 10) as u8)
    }
}

/// How one byte appears inside a JSON string.
pub open spec fn esc_byte(b: u8) -> Seq<u8> {
    if b == 34 {
        seq![92u8, 34u8]
    } else if b == 92 {
        seq![92u8, 92u8]
    } else if b == 10 {
        seq![92u8, 110u8]
    } else if b == 13 {
        seq![92u8, 114u8]
    } else if b == 9 {
        seq![92u8, 116u8]
    } else if b < 32 {
        seq![92u8, 117u8, 48u8, 48u8, hex_digit((b / 16) as nat), hex_digit((b % 16) as nat)]
    } else {
        seq![b]
    }
}

/// The body of a JSON string: each byte escaped as [`esc_byte`] says.
pub open spec fn esc_bytes(s: Seq<u8>) -> Seq<u8>
    decreases s.len(),
{
    if s.len() == 0 {
        Seq::empty()
    } else {
        esc_byte(s[0]) + esc_bytes(s.drop_first())
    }
}

/// A JSON string: the escaped body between double quotes.
pub open spec fn jstr(s: Seq<u8>) -> Seq<u8> {
    seq![34u8] + esc_bytes(s) + seq![34u8]
}

/// A JSON boolean.
pub open spec fn jbool(b: bool) -> Seq<u8> {
    if b {
        tok_true()
    } else {
        tok_false()
    }
}

// --- the one-pass reader, as a mathematical function ------------------------
//
// Each `sp_*` function reads one construct of the grammar at position `i`
// and gives the value read and the position just past it, or `None` where
// the input does not follow the canonical rendering. The executable reader
// below returns exactly what these functions say.

/// Expect the exact bytes `tok` at `i`.
pub open spec fn sp_lit(s: Seq<u8>, i: int, tok: Seq<u8>) -> Option<int> {
    if 0 <= i && i + tok.len() <= s.len() && s.subrange(i, i + tok.len()) == tok {
        Some(i + tok.len())
    } else {
        None
    }
}

/// Read the remainder of a string body up to and including the closing
/// quote, undoing the escapes.
pub open spec fn sp_str_body(s: Seq<u8>, i: int) -> Option<(Seq<u8>, int)>
    decreases s.len() - i, 0nat,
{
    if !(0 <= i < s.len()) {
        None
    } else {
        let b = s[i];
        if b == 34 {
            Some((Seq::empty(), i + 1))
        } else if b == 92 {
            if !(i + 1 < s.len()) {
                None
            } else {
                let e = s[i + 1];
                if e == 34 {
                    sp_str_cont(s, i + 2, 34)
                } else if e == 92 {
                    sp_str_cont(s, i + 2, 92)
                } else if e == 110 {
                    sp_str_cont(s, i + 2, 10)
                } else if e == 114 {
                    sp_str_cont(s, i + 2, 13)
                } else if e == 116 {
                    sp_str_cont(s, i + 2, 9)
                } else if e == 117 {
                    if i + 5 < s.len() && s[i + 2] == 48 && s[i + 3] == 48 && is_hex(s[i + 4])
                        && is_hex(s[i + 5]) {
                        sp_str_cont(s, i + 6, (hex_val(s[i + 4]) * 16 + hex_val(s[i + 5])) as u8)
                    } else {
                        None
                    }
                } else {
                    None
                }
            }
        } else if b < 32 {
            None
        } else {
            sp_str_cont(s, i + 1, b)
        }
    }
}

/// Helper of [`sp_str_body`]: prepend the byte just decoded.
pub open spec fn sp_str_cont(s: Seq<u8>, i: int, c: u8) -> Option<(Seq<u8>, int)>
    decreases s.len() - i, 1nat,
{
    if i <= s.len() {
        match sp_str_body(s, i) {
            Some((t, e)) => Some((seq![c] + t, e)),
            None => None,
        }
    } else {
        None
    }
}

/// Read a JSON string at `i`.
pub open spec fn sp_jstr(s: Seq<u8>, i: int) -> Option<(Seq<u8>, int)> {
    if 0 <= i < s.len() && s[i] == 34 {
        sp_str_body(s, i + 1)
    } else {
        None
    }
}

/// Read the longest run of digits starting at `i`, accumulating onto `acc`;
/// `None` where the value would not fit in a `u64`.
pub open spec fn sp_num_acc(s: Seq<u8>, i: int, acc: u64) -> Option<(u64, int)>
    decreases s.len() - i,
{
    if 0 <= i < s.len() && is_digit(s[i]) {
        let d = (s[i] - 48) as u64;
        if acc > (u64::MAX - d) / 10 {
            None
        } else {
            sp_num_acc(s, i + 1, (acc * 10 + d) as u64)
        }
    } else {
        Some((acc, i))
    }
}

/// Read an unsigned decimal number at `i`.
pub open spec fn sp_u64(s: Seq<u8>, i: int) -> Option<(u64, int)> {
    if 0 <= i < s.len() && is_digit(s[i]) {
        sp_num_acc(s, i, 0)
    } else {
        None
    }
}

/// Read `true` or `false` at `i`.
pub open spec fn sp_bool(s: Seq<u8>, i: int) -> Option<(bool, int)> {
    match sp_lit(s, i, tok_true()) {
        Some(e) => Some((true, e)),
        None => match sp_lit(s, i, tok_false()) {
            Some(e) => Some((false, e)),
            None => None,
        },
    }
}

// --- executable writers -----------------------------------------------------

/// Append the bytes of the (ASCII) token `lit`.
pub fn write_lit(out: &mut Vec<u8>, lit: &str)
    ensures
        final(out)@ == old(out)@ + lit.spec_bytes(),
{
    out.extend_from_slice(lit.as_bytes());
    proof {
        assert(out@ =~= old(out)@ + lit.spec_bytes());
    }
}

/// Append the decimal digits of `n`.
pub fn write_u64(out: &mut Vec<u8>, n: u64)
    ensures
        final(out)@ == old(out)@ + dec_digits(n as nat),
    decreases n,
{
    if n < 10 {
        out.push(48 + n as u8);
        proof {
            assert(out@ =~= old(out)@ + dec_digits(n as nat));
        }
    } else {
        write_u64(out, n / 10);
        out.push(48 + (n % 10) as u8);
        proof {
            assert(out@ =~= old(out)@ + dec_digits(n as nat));
        }
    }
}

/// Append `true` or `false`.
pub fn write_bool(out: &mut Vec<u8>, b: bool)
    ensures
        final(out)@ == old(out)@ + jbool(b),
{
    if b {
        out.push(116);
        out.push(114);
        out.push(117);
        out.push(101);
        proof {
            assert(out@ =~= old(out)@ + jbool(b));
        }
    } else {
        out.push(102);
        out.push(97);
        out.push(108);
        out.push(115);
        out.push(101);
        proof {
            assert(out@ =~= old(out)@ + jbool(b));
        }
    }
}

/// Append `null`.
pub fn write_null(out: &mut Vec<u8>)
    ensures
        final(out)@ == old(out)@ + tok_null(),
{
    out.push(110);
    out.push(117);
    out.push(108);
    out.push(108);
    proof {
        assert(out@ =~= old(out)@ + tok_null());
    }
}

/// Escaping distributes over concatenation.
pub proof fn lemma_esc_bytes_add(a: Seq<u8>, b: Seq<u8>)
    ensures
        esc_bytes(a + b) == esc_bytes(a) + esc_bytes(b),
    decreases a.len(),
{
    if a.len() == 0 {
        assert(a + b =~= b);
        assert(esc_bytes(a) + esc_bytes(b) =~= esc_bytes(b));
    } else {
        assert((a + b).drop_first() =~= a.drop_first() + b);
        lemma_esc_bytes_add(a.drop_first(), b);
        assert(esc_byte(a[0]) + (esc_bytes(a.drop_first()) + esc_bytes(b)) =~= (esc_byte(a[0])
            + esc_bytes(a.drop_first())) + esc_bytes(b));
    }
}

/// Append the JSON string rendering of `s`.
pub fn write_jstr(out: &mut Vec<u8>, s: &Vec<u8>)
    ensures
        final(out)@ == old(out)@ + jstr(s@),
{
    out.push(34);
    let n = s.len();
    for i in 0..n
        invariant
            n == s@.len(),
            out@ == old(out)@ + seq![34u8] + esc_bytes(s@.subrange(0, i as int)),
    {
        let b = s[i];
        proof {
            assert(s@.subrange(0, i + 1) =~= s@.subrange(0, i as int) + seq![s@[i as int]]);
            lemma_esc_bytes_add(s@.subrange(0, i as int), seq![s@[i as int]]);
            assert(esc_bytes(seq![s@[i as int]]) =~= esc_byte(s@[i as int]) + esc_bytes(
                Seq::<u8>::empty(),
            )) by {
                assert(seq![s@[i as int]].drop_first() =~= Seq::<u8>::empty());
            }
            assert(esc_bytes(seq![s@[i as int]]) =~= esc_byte(s@[i as int]));
        }
        if b == 34 {
            out.push(92);
            out.push(34);
        } else if b == 92 {
            out.push(92);
            out.push(92);
        } else if b == 10 {
            out.push(92);
            out.push(110);
        } else if b == 13 {
            out.push(92);
            out.push(114);
        } else if b == 9 {
            out.push(92);
            out.push(116);
        } else if b < 32 {
            out.push(92);
            out.push(117);
            out.push(48);
            out.push(48);
            let hi = b / 16;
            let lo = b % 16;
            out.push(if hi < 10 { 48 + hi } else { 87 + hi });
            out.push(if lo < 10 { 48 + lo } else { 87 + lo });
        } else {
            out.push(b);
        }
        proof {
            assert(out@ =~= old(out)@ + seq![34u8] + esc_bytes(s@.subrange(0, i + 1)));
        }
    }
    out.push(34);
    proof {
        assert(s@.subrange(0, n as int) =~= s@);
        assert(out@ =~= old(out)@ + jstr(s@));
    }
}

// --- executable readers -----------------------------------------------------

/// Expect the (ASCII) token `lit` at `pos`.
pub fn expect_lit(buf: &Vec<u8>, pos: usize, lit: &str) -> (r: Option<usize>)
    ensures
        match r {
            Some(e) => e <= buf@.len() && sp_lit(buf@, pos as int, lit.spec_bytes()) == Some(
                e as int,
            ),
            None => sp_lit(buf@, pos as int, lit.spec_bytes()) is None,
        },
{
    let bytes = lit.as_bytes();
    let n = bytes.len();
    let blen = buf.len();
    if pos > blen || n > blen - pos {
        return None;
    }
    for i in 0..n
        invariant
            n == lit.spec_bytes().len(),
            bytes@ == lit.spec_bytes(),
            blen == buf@.len(),
            pos + n <= blen,
            forall|j: int| 0 <= j < i ==> buf@[pos + j] == lit.spec_bytes()[j],
    {
        if buf[pos + i] != bytes[i] {
            proof {
                assert(buf@.subrange(pos as int, pos + n) != lit.spec_bytes()) by {
                    assert(buf@.subrange(pos as int, pos + n)[i as int] == buf@[pos + i]);
                }
            }
            return None;
        }
    }
    proof {
        assert(buf@.subrange(pos as int, pos + n) =~= lit.spec_bytes());
    }
    Some(pos + n)
}

/// Read a JSON string at `pos`.
pub fn parse_jstr(buf: &Vec<u8>, pos: usize) -> (r: Option<(Vec<u8>, usize)>)
    ensures
        match r {
            Some((v, e)) => e <= buf@.len() && sp_jstr(buf@, pos as int) == Some((v@, e as int)),
            None => sp_jstr(buf@, pos as int) is None,
        },
{
    if !(pos < buf.len() && buf[pos] == 34) {
        return None;
    }
    let mut acc: Vec<u8> = Vec::new();
    let mut i: usize = pos + 1;
    proof {
        let r0 = sp_str_body(buf@, pos as int + 1);
        match r0 {
            Some(p) => {
                assert(Seq::<u8>::empty() + p.0 =~= p.0);
            }
            None => {}
        }
    }
    loop
        invariant
            pos < buf@.len(),
            buf@[pos as int] == 34,
            pos + 1 <= i <= buf@.len(),
            sp_str_body(buf@, pos as int + 1) == (match sp_str_body(buf@, i as int) {
                Some((t, e)) => Some((acc@ + t, e)),
                None => None::<(Seq<u8>, int)>,
            }),
        decreases buf@.len() - i,
    {
        if i >= buf.len() {
            return None;
        }
        let b = buf[i];
        if b == 34 {
            proof {
                assert(sp_str_body(buf@, i as int) == Some((Seq::<u8>::empty(), i + 1 as int)));
                assert(acc@ + Seq::<u8>::empty() =~= acc@);
                assert(sp_str_body(buf@, pos as int + 1) == Some((acc@, i + 1 as int)));
            }
            return Some((acc, i + 1));
        } else if b == 92 {
            if i + 1 >= buf.len() {
                return None;
            }
            let e = buf[i + 1];
            let c: u8;
            let step: usize;
            if e == 34 {
                c = 34;
                step = 2;
            } else if e == 92 {
                c = 92;
                step = 2;
            } else if e == 110 {
                c = 10;
                step = 2;
            } else if e == 114 {
                c = 13;
                step = 2;
            } else if e == 116 {
                c = 9;
                step = 2;
            } else if e == 117 {
                if !(5 < buf.len() - i && buf[i + 2] == 48 && buf[i + 3] == 48) {
                    return None;
                }
                let h1 = buf[i + 4];
                let h2 = buf[i + 5];
                let v1: u8;
                let v2: u8;
                if 48 <= h1 && h1 <= 57 {
                    v1 = h1 - 48;
                } else if 97 <= h1 && h1 <= 102 {
                    v1 = h1 - 87;
                } else {
                    return None;
                }
                if 48 <= h2 && h2 <= 57 {
                    v2 = h2 - 48;
                } else if 97 <= h2 && h2 <= 102 {
                    v2 = h2 - 87;
                } else {
                    return None;
                }
                c = v1 * 16 + v2;
                step = 6;
            } else {
                return None;
            }
            let ghost pre = acc@;
            let ghost iold = i as int;
            acc.push(c);
            i = i + step;
            proof {
                assert(acc@ =~= pre + seq![c]);
                assert(sp_str_body(buf@, iold) == sp_str_cont(buf@, i as int, c));
                match sp_str_body(buf@, i as int) {
                    Some(p) => {
                        assert(pre + (seq![c] + p.0) =~= (pre + seq![c]) + p.0);
                    }
                    None => {}
                }
            }
        } else if b < 32 {
            return None;
        } else {
            let ghost pre = acc@;
            let ghost iold = i as int;
            acc.push(b);
            i = i + 1;
            proof {
                assert(acc@ =~= pre + seq![b]);
                assert(sp_str_body(buf@, iold) == sp_str_cont(buf@, i as int, b));
                match sp_str_body(buf@, i as int) {
                    Some(p) => {
                        assert(pre + (seq![b] + p.0) =~= (pre + seq![b]) + p.0);
                    }
                    None => {}
                }
            }
        }
    }
}

/// Read an unsigned decimal number at `pos`.
pub fn parse_u64(buf: &Vec<u8>, pos: usize) -> (r: Option<(u64, usize)>)
    ensures
        match r {
            Some((v, e)) => e <= buf@.len() && sp_u64(buf@, pos as int) == Some((v, e as int)),
            None => sp_u64(buf@, pos as int) is None,
        },
{
    if !(pos < buf.len() && 48 <= buf[pos] && buf[pos] <= 57) {
        return None;
    }
    let mut acc: u64 = 0;
    let mut i: usize = pos;
    loop
        invariant
            pos < buf@.len(),
            is_digit(buf@[pos as int]),
            pos <= i <= buf@.len(),
            sp_num_acc(buf@, pos as int, 0) == sp_num_acc(buf@, i as int, acc),
        decreases buf@.len() - i,
    {
        if i < buf.len() && 48 <= buf[i] && buf[i] <= 57 {
            let d = (buf[i] - 48) as u64;
            if acc > (u64::MAX - d) / 10 {
                return None;
            }
            acc = acc * 10 + d;
            i = i + 1;
        } else {
            proof {
                assert(sp_num_acc(buf@, i as int, acc) == Some((acc, i as int)));
            }
            return Some((acc, i));
        }
    }
}

/// Read `true` or `false` at `pos`.
pub fn parse_bool(buf: &Vec<u8>, pos: usize) -> (r: Option<(bool, usize)>)
    ensures
        match r {
            Some((v, e)) => e <= buf@.len() && sp_bool(buf@, pos as int) == Some((v, e as int)),
            None => sp_bool(buf@, pos as int) is None,
        },
{
    if pos < buf.len() && buf[pos] == 116 {
        if 4 <= buf.len() - pos && buf[pos + 1] == 114 && buf[pos + 2] == 117 && buf[pos + 3]
            == 101 {
            proof {
                assert(buf@.subrange(pos as int, pos as int + 4) =~= tok_true());
            }
            return Some((true, pos + 4));
        }
        proof {
            lemma_tok_mismatch(buf@, pos as int, tok_true());
            lemma_tok_mismatch(buf@, pos as int, tok_false());
        }
        return None;
    }
    if pos < buf.len() && buf[pos] == 102 {
        if 5 <= buf.len() - pos && buf[pos + 1] == 97 && buf[pos + 2] == 108 && buf[pos + 3]
            == 115 && buf[pos + 4] == 101 {
            proof {
                lemma_tok_mismatch(buf@, pos as int, tok_true());
                assert(buf@.subrange(pos as int, pos as int + 5) =~= tok_false());
            }
            return Some((false, pos + 5));
        }
        proof {
            lemma_tok_mismatch(buf@, pos as int, tok_true());
            lemma_tok_mismatch(buf@, pos as int, tok_false());
        }
        return None;
    }
    proof {
        lemma_tok_mismatch(buf@, pos as int, tok_true());
        lemma_tok_mismatch(buf@, pos as int, tok_false());
    }
    None
}

// --- whitespace normalization -----------------------------------------------

/// JSON inter-token whitespace.
pub open spec fn is_ws(b: u8) -> bool {
    b == 32 || b == 9 || b == 10 || b == 13
}

/// The document from `i` on with its inter-token whitespace removed:
/// whitespace inside string literals stays (quotes and escapes are
/// tracked), everything outside goes.
pub open spec fn sp_strip_ws(s: Seq<u8>, i: int, in_str: bool, esc: bool) -> Seq<u8>
    decreases s.len() - i,
{
    if !(0 <= i < s.len()) {
        Seq::empty()
    } else {
        let b = s[i];
        if in_str {
            if esc {
                seq![b] + sp_strip_ws(s, i + 1, true, false)
            } else if b == 92 {
                seq![b] + sp_strip_ws(s, i + 1, true, true)
            } else if b == 34 {
                seq![b] + sp_strip_ws(s, i + 1, false, false)
            } else {
                seq![b] + sp_strip_ws(s, i + 1, true, false)
            }
        } else if is_ws(b) {
            sp_strip_ws(s, i + 1, false, false)
        } else if b == 34 {
            seq![b] + sp_strip_ws(s, i + 1, true, false)
        } else {
            seq![b] + sp_strip_ws(s, i + 1, false, false)
        }
    }
}

/// A whole document with its inter-token whitespace removed.
pub open spec fn json_ws_stripped(s: Seq<u8>) -> Seq<u8> {
    sp_strip_ws(s, 0, false, false)
}

/// One step of the stripping scan.
proof fn lemma_strip_step(s: Seq<u8>, i: int, in_str: bool, esc: bool)
    requires
        0 <= i < s.len(),
    ensures
        sp_strip_ws(s, i, in_str, esc) == ({
            let b = s[i];
            if in_str {
                if esc {
                    seq![b] + sp_strip_ws(s, i + 1, true, false)
                } else if b == 92 {
                    seq![b] + sp_strip_ws(s, i + 1, true, true)
                } else if b == 34 {
                    seq![b] + sp_strip_ws(s, i + 1, false, false)
                } else {
                    seq![b] + sp_strip_ws(s, i + 1, true, false)
                }
            } else if is_ws(b) {
                sp_strip_ws(s, i + 1, false, false)
            } else if b == 34 {
                seq![b] + sp_strip_ws(s, i + 1, true, false)
            } else {
                seq![b] + sp_strip_ws(s, i + 1, false, false)
            }
        }),
{
}

/// Remove a document's inter-token whitespace, leaving string contents
/// untouched.
pub fn strip_json_ws(buf: &Vec<u8>) -> (r: Vec<u8>)
    ensures
        r@ == json_ws_stripped(buf@),
{
    let mut out: Vec<u8> = Vec::new();
    let mut in_str = false;
    let mut esc = false;
    let n = buf.len();
    for i in 0..n
        invariant
            n == buf@.len(),
            !in_str ==> !esc,
            json_ws_stripped(buf@) == out@ + sp_strip_ws(buf@, i as int, in_str, esc),
    {
        let b = buf[i];
        proof {
            lemma_strip_step(buf@, i as int, in_str, esc);
        }
        let ghost pre = out@;
        if in_str {
            out.push(b);
            if esc {
                esc = false;
            } else if b == 92 {
                esc = true;
            } else if b == 34 {
                in_str = false;
            }
            proof {
                let rest = sp_strip_ws(buf@, i + 1, in_str, esc);
                assert(out@ =~= pre + seq![b]);
                assert(pre + (seq![b] + rest) =~= (pre + seq![b]) + rest);
            }
        } else if b == 32 || b == 9 || b == 10 || b == 13 {
        } else {
            out.push(b);
            if b == 34 {
                in_str = true;
            }
            proof {
                let rest = sp_strip_ws(buf@, i + 1, in_str, esc);
                assert(out@ =~= pre + seq![b]);
                assert(pre + (seq![b] + rest) =~= (pre + seq![b]) + rest);
            }
        }
    }
    proof {
        assert(sp_strip_ws(buf@, n as int, in_str, esc) =~= Seq::<u8>::empty());
        assert(json_ws_stripped(buf@) =~= out@);
    }
    out
}

// --- reading back what was written -----------------------------------------

/// Powers of ten.
pub open spec fn pow10(k: nat) -> nat
    decreases k,
{
    if k == 0 {
        1
    } else {
        10 * pow10((k - 1) as nat)
    }
}

/// Every byte of `ds` is a decimal digit.
pub open spec fn all_digits(ds: Seq<u8>) -> bool {
    forall|i: int| 0 <= i < ds.len() ==> is_digit(#[trigger] ds[i])
}

/// The number the digit run `ds` denotes.
pub open spec fn val_digits(ds: Seq<u8>) -> nat
    decreases ds.len(),
{
    if ds.len() == 0 {
        0
    } else {
        val_digits(ds.drop_last()) * 10 + ((ds.last() - 48) as nat)
    }
}

pub proof fn lemma_pow10_pos(k: nat)
    ensures
        pow10(k) >= 1,
    decreases k,
{
    if k > 0 {
        lemma_pow10_pos((k - 1) as nat);
    }
}

/// The canonical digits of `n` are digits, denote `n`, and are nonempty.
pub proof fn lemma_dec_digits_props(n: nat)
    ensures
        all_digits(dec_digits(n)),
        val_digits(dec_digits(n)) == n,
        dec_digits(n).len() >= 1,
    decreases n,
{
    if n < 10 {
        let ds = dec_digits(n);
        assert(ds.drop_last() =~= Seq::<u8>::empty());
        assert(val_digits(Seq::<u8>::empty()) == 0);
        assert(ds.last() == (48 + n) as u8);
        assert(val_digits(ds) == n);
    } else {
        lemma_dec_digits_props(n / 10);
        let ds = dec_digits(n);
        assert(ds.drop_last() =~= dec_digits(n / 10));
        assert(val_digits(ds) == (n / 10) * 10 + n % 10);
    }
}

/// A digit run's value, decomposed at its first digit.
proof fn lemma_val_digits_front(ds: Seq<u8>)
    requires
        ds.len() >= 1,
    ensures
        val_digits(ds) == ((ds[0] - 48) as nat) * pow10((ds.len() - 1) as nat) + val_digits(
            ds.drop_first(),
        ),
    decreases ds.len(),
{
    if ds.len() == 1 {
        assert(ds.drop_last() =~= Seq::<u8>::empty());
        assert(ds.drop_first() =~= Seq::<u8>::empty());
        assert(val_digits(Seq::<u8>::empty()) == 0);
        assert(ds.last() == ds[0]);
        assert(val_digits(ds) == (ds[0] - 48) as nat);
        assert(pow10(0) == 1);
        assert(((ds[0] - 48) as nat) * pow10(0) == ((ds[0] - 48) as nat)) by (nonlinear_arith)
            requires
                pow10(0) == 1,
        ;
    } else {
        let dl = ds.drop_last();
        lemma_val_digits_front(dl);
        assert(dl[0] == ds[0]);
        assert(dl.drop_first() =~= ds.drop_first().drop_last());
        assert(ds.drop_first().last() == ds.last());
        let a = (ds[0] - 48) as nat;
        let k = (ds.len() - 2) as nat;
        assert(val_digits(ds) == val_digits(dl) * 10 + ((ds.last() - 48) as nat));
        assert(val_digits(dl) == a * pow10(k) + val_digits(ds.drop_first().drop_last()));
        assert((a * pow10(k) + val_digits(ds.drop_first().drop_last())) * 10 == a * (10 * pow10(k))
            + val_digits(ds.drop_first().drop_last()) * 10) by (nonlinear_arith);
        assert(pow10((ds.len() - 1) as nat) == 10 * pow10(k));
        assert(val_digits(ds.drop_first()) == val_digits(ds.drop_first().drop_last()) * 10 + ((
        ds.drop_first().last() - 48) as nat));
        assert(val_digits(ds) == a * pow10((ds.len() - 1) as nat) + val_digits(ds.drop_first()));
    }
}

/// Scanning a digit run whose value (on top of `acc`) fits in a `u64` reads
/// exactly that value and stops at its end.
proof fn lemma_num_acc_reads(s: Seq<u8>, i: int, j: int, acc: u64)
    requires
        0 <= i <= j <= s.len(),
        all_digits(s.subrange(i, j)),
        j == s.len() || !is_digit(s[j]),
        acc * pow10((j - i) as nat) + val_digits(s.subrange(i, j)) <= u64::MAX,
    ensures
        sp_num_acc(s, i, acc) == Some(
            ((acc * pow10((j - i) as nat) + val_digits(s.subrange(i, j))) as u64, j),
        ),
    decreases j - i,
{
    let ds = s.subrange(i, j);
    if i == j {
        assert(ds.len() == 0);
        assert(val_digits(ds) == 0);
        assert(acc * 1 + 0 == acc) by (nonlinear_arith);
    } else {
        assert(is_digit(s[i])) by {
            assert(ds[0] == s[i]);
        }
        let d = (s[i] - 48) as u64;
        let l1 = (j - i - 1) as nat;
        lemma_val_digits_front(ds);
        assert(ds.drop_first() =~= s.subrange(i + 1, j));
        lemma_pow10_pos(l1);
        let total = acc * pow10((j - i) as nat) + val_digits(ds);
        assert(acc * pow10((j - i) as nat) == (acc * 10) * pow10(l1)) by (nonlinear_arith)
            requires
                pow10((j - i) as nat) == 10 * pow10(l1),
        ;
        assert(total == (acc * 10 + d) * pow10(l1) + val_digits(s.subrange(i + 1, j)))
            by (nonlinear_arith)
            requires
                acc * pow10((j - i) as nat) == (acc * 10) * pow10(l1),
                total == acc * pow10((j - i) as nat) + ((d * pow10(l1)) as nat) + val_digits(
                    s.subrange(i + 1, j),
                ),
        ;
        assert(val_digits(ds) == d * pow10(l1) + val_digits(s.subrange(i + 1, j)));
        assert((acc * 10 + d) <= total) by (nonlinear_arith)
            requires
                pow10(l1) >= 1,
                total == (acc * 10 + d) * pow10(l1) + val_digits(s.subrange(i + 1, j)),
        ;
        assert(acc <= (u64::MAX - d) / 10);
        lemma_num_acc_reads(s, i + 1, j, (acc * 10 + d) as u64);
    }
}

/// The canonical decimal rendering of `n`, followed by a non-digit, reads
/// back as `n`.
pub proof fn lemma_u64_reads(s: Seq<u8>, i: int, n: u64)
    requires
        0 <= i,
        i + dec_digits(n as nat).len() <= s.len(),
        s.subrange(i, i + dec_digits(n as nat).len()) == dec_digits(n as nat),
        i + dec_digits(n as nat).len() == s.len() || !is_digit(
            s[i + dec_digits(n as nat).len()],
        ),
    ensures
        sp_u64(s, i) == Some((n, i + dec_digits(n as nat).len())),
{
    let ds = dec_digits(n as nat);
    let j = i + ds.len();
    lemma_dec_digits_props(n as nat);
    assert(is_digit(s[i])) by {
        assert(s.subrange(i, j)[0] == s[i]);
    }
    assert(0 * pow10((j - i) as nat) == 0) by (nonlinear_arith);
    lemma_num_acc_reads(s, i, j, 0);
}

/// The escaped body of `content` followed by a closing quote reads back as
/// `content`.
proof fn lemma_str_body_reads(s: Seq<u8>, i: int, content: Seq<u8>)
    requires
        0 <= i,
        i + esc_bytes(content).len() + 1 <= s.len(),
        s.subrange(i, i + esc_bytes(content).len() + 1) == esc_bytes(content) + seq![34u8],
    ensures
        sp_str_body(s, i) == Some((content, i + esc_bytes(content).len() + 1)),
    decreases content.len(),
{
    let w = esc_bytes(content) + seq![34u8];
    let l = esc_bytes(content).len() as int;
    if content.len() == 0 {
        assert(s[i] == 34) by {
            assert(s.subrange(i, i + l + 1)[0] == s[i]);
        }
    } else {
        let c = content[0];
        let rest = content.drop_first();
        let e0 = esc_byte(c);
        let k = e0.len() as int;
        assert(esc_bytes(content) == e0 + esc_bytes(rest));
        assert forall|m: int| 0 <= m < k implies s[i + m] == e0[m] by {
            assert(s.subrange(i, i + l + 1)[m] == s[i + m]);
            assert((esc_bytes(content) + seq![34u8])[m] == e0[m]);
        }
        assert(s.subrange(i + k, i + k + esc_bytes(rest).len() + 1) =~= esc_bytes(rest) + seq![
            34u8,
        ]) by {
            assert forall|m: int| 0 <= m < esc_bytes(rest).len() + 1 implies s.subrange(
                i + k,
                i + k + esc_bytes(rest).len() + 1,
            )[m] == (esc_bytes(rest) + seq![34u8])[m] by {
                assert(s.subrange(i + k, i + k + esc_bytes(rest).len() + 1)[m] == s[i + k + m]);
                assert(s[i + k + m] == s.subrange(i, i + l + 1)[k + m]);
                assert((esc_bytes(content) + seq![34u8])[k + m] == (esc_bytes(rest) + seq![
                    34u8,
                ])[m]);
            }
        }
        lemma_str_body_reads(s, i + k, rest);
        assert(seq![c] + rest =~= content);
        if c == 34 || c == 92 || c == 10 || c == 13 || c == 9 {
            assert(s[i] == 92 && i + 1 < s.len());
            assert(sp_str_body(s, i) == sp_str_cont(s, i + 2, c));
        } else if c < 32 {
            assert(s[i] == 92 && s[i + 1] == 117 && s[i + 2] == 48 && s[i + 3] == 48);
            assert(i + 5 < s.len());
            let h1 = s[i + 4];
            let h2 = s[i + 5];
            assert(h1 == hex_digit((c / 16) as nat) && h2 == hex_digit((c % 16) as nat));
            assert(is_hex(h1) && is_hex(h2));
            assert(hex_val(h1) == c / 16 && hex_val(h2) == c % 16);
            assert((hex_val(h1) * 16 + hex_val(h2)) as u8 == c);
            assert(sp_str_body(s, i) == sp_str_cont(s, i + 6, c));
        } else {
            assert(s[i] == c);
            assert(sp_str_body(s, i) == sp_str_cont(s, i + 1, c));
        }
    }
}

/// A canonical JSON string reads back as its content.
pub proof fn lemma_jstr_reads(s: Seq<u8>, i: int, content: Seq<u8>)
    requires
        0 <= i,
        i + jstr(content).len() <= s.len(),
        s.subrange(i, i + jstr(content).len()) == jstr(content),
    ensures
        sp_jstr(s, i) == Some((content, i + jstr(content).len())),
{
    let l = esc_bytes(content).len() as int;
    assert(s[i] == 34) by {
        assert(s.subrange(i, i + l + 2)[0] == s[i]);
    }
    assert(s.subrange(i + 1, i + 1 + l + 1) =~= esc_bytes(content) + seq![34u8]) by {
        assert forall|m: int| 0 <= m < l + 1 implies s.subrange(i + 1, i + 1 + l + 1)[m] == (
        esc_bytes(content) + seq![34u8])[m] by {
            assert(s.subrange(i + 1, i + 1 + l + 1)[m] == s[i + 1 + m]);
            assert(s[i + 1 + m] == s.subrange(i, i + l + 2)[1 + m]);
            assert(jstr(content)[1 + m] == (esc_bytes(content) + seq![34u8])[m]);
        }
    }
    lemma_str_body_reads(s, i + 1, content);
}

/// A token standing at `i` reads as itself.
pub proof fn lemma_lit_reads(s: Seq<u8>, i: int, tok: Seq<u8>)
    requires
        0 <= i,
        i + tok.len() <= s.len(),
        s.subrange(i, i + tok.len()) == tok,
    ensures
        sp_lit(s, i, tok) == Some(i + tok.len()),
{
}

/// `true` and `false` read back as themselves.
pub proof fn lemma_bool_reads(s: Seq<u8>, i: int, b: bool)
    requires
        0 <= i,
        i + jbool(b).len() <= s.len(),
        s.subrange(i, i + jbool(b).len()) == jbool(b),
    ensures
        sp_bool(s, i) == Some((b, i + jbool(b).len())),
{
    if b {
        lemma_lit_reads(s, i, tok_true());
    } else {
        assert(s[i] == 102) by {
            assert(s.subrange(i, i + 5)[0] == s[i]);
        }
        assert(sp_lit(s, i, tok_true()) is None) by {
            if sp_lit(s, i, tok_true()) is Some {
                assert(s.subrange(i, i + 4)[0] == s[i]);
                assert(tok_true()[0] == 116);
            }
        }
        lemma_lit_reads(s, i, tok_false());
    }
}

/// Where some byte of `tok` disagrees with the input (or the input is too
/// short), the token is not there.
proof fn lemma_tok_mismatch(s: Seq<u8>, i: int, tok: Seq<u8>)
    requires
        !(0 <= i && i + tok.len() <= s.len()) || exists|j: int|
            0 <= j < tok.len() && s[i + j] != tok[j],
    ensures
        sp_lit(s, i, tok) is None,
{
    if 0 <= i && i + tok.len() <= s.len() {
        let j = choose|j: int| 0 <= j < tok.len() && s[i + j] != tok[j];
        assert(s.subrange(i, i + tok.len())[j] == s[i + j]);
        assert(s.subrange(i, i + tok.len()) != tok);
    }
}

} // verus!
