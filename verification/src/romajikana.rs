//! Romaji to half-width katakana input (JIS X 0201).
//!
//! The converter keeps up to two pending romaji letters (`buf0`, `buf1`). Each
//! typed character yields the bytes to send to the screen: backspaces (0x08)
//! that erase the pending letters already echoed, the kana (0xA1..=0xDF, with
//! the voiced marks 0xDE / 0xDF) and the typed letter itself while it stays
//! pending. At most five bytes come out of one key.

use vstd::prelude::*;

verus! {

/// Backspace, as sent to the screen.
pub const BS: u8 = 8;

/// ASCII letters are folded to upper case; other bytes are kept.
pub open spec fn fold_upper(c: u8) -> u8 {
    if 97 <= c <= 122 { (c - 32) as u8 } else { c }
}

/// Upper-case ASCII letter.
pub open spec fn is_upper(c: u8) -> bool {
    65 <= c <= 90
}

/// Index of a vowel in the kana row order a, i, u, e, o; -1 for any other byte.
pub open spec fn vowel_index(c: u8) -> int {
    if c == 65u8 { 0 }
    else if c == 73u8 { 1 }
    else if c == 85u8 { 2 }
    else if c == 69u8 { 3 }
    else if c == 79u8 { 4 }
    else { -1 }
}

/// The punctuation keys that type a katakana symbol; any other byte is kept.
pub open spec fn punct_kana(c: u8) -> u8 {
    if c == 46u8 { 0xa1 }
    else if c == 44u8 { 0xa4 }
    else if c == 45u8 { 0xb0 }
    else if c == 91u8 { 0xa2 }
    else if c == 93u8 { 0xa3 }
    else if c == 47u8 { 0xa5 }
    else if c == 92u8 { 0xa0 }
    else { c }
}

/// A byte that is sent only when it is not 0.
pub open spec fn opt_byte(k: u8) -> Seq<u8> {
    if k != 0 { seq![k] } else { Seq::empty() }
}

/// Small kana (ャ ュ ョ after a consonant, ァ ィ ゥ ェ ォ otherwise) for vowel `m`.
pub open spec fn small_vowel(m: int) -> u8 {
    if m % 2 == 0 { (0xac + m / 2) as u8 } else { (0xa7 + m) as u8 }
}

/// ャ / (nothing) / ュ / ェ / ョ after シ, ジ or チ.
pub open spec fn sh_vowel(m: int) -> u8 {
    if m == 1 { 0 } else if m == 3 { 0xaa } else { (0xac + m / 2) as u8 }
}

/// The bytes before the last one, and the last one (0: none), when vowel `m`
/// follows the single pending consonant `b0`; `k` is the vowel's own byte.
pub open spec fn one_consonant(b0: u8, m: int, k: u8) -> (Seq<u8>, u8) {
    if b0 == 75u8 || b0 == 67u8 { (Seq::empty(), (0xb6 + m) as u8) }
    else if b0 == 83u8 { (Seq::empty(), (0xbb + m) as u8) }
    else if b0 == 84u8 { (Seq::empty(), (0xc0 + m) as u8) }
    else if b0 == 78u8 { (Seq::empty(), (0xc5 + m) as u8) }
    else if b0 == 72u8 { (Seq::empty(), (0xca + m) as u8) }
    else if b0 == 77u8 { (Seq::empty(), (0xcf + m) as u8) }
    else if b0 == 89u8 {
        if m % 2 == 0 { (Seq::empty(), (0xd4 + m / 2) as u8) } else { (Seq::empty(), (0xb1 + m) as u8) }
    }
    else if b0 == 82u8 { (Seq::empty(), (0xd7 + m) as u8) }
    else if b0 == 87u8 {
        if m == 0 { (Seq::empty(), 0xdc) }
        else if m == 2 { (Seq::empty(), 0xb3) }
        else if m == 4 { (Seq::empty(), 0xa6) }
        else { (seq![0xb3u8], (0xa7 + m) as u8) }
    }
    else if b0 == 76u8 || b0 == 88u8 { (Seq::empty(), (0xa7 + m) as u8) }
    else if b0 == 71u8 { (seq![(0xb6 + m) as u8], 0xde) }
    else if b0 == 90u8 { (seq![(0xbb + m) as u8], 0xde) }
    else if b0 == 74u8 { (seq![0xbcu8, 0xdeu8], sh_vowel(m)) }
    else if b0 == 70u8 {
        if m == 2 { (seq![0xccu8], 0) } else { (seq![0xccu8], (0xa7 + m) as u8) }
    }
    else if b0 == 86u8 {
        if m == 2 { (seq![0xb3u8, 0xdeu8], 0) } else { (seq![0xb3u8, 0xdeu8], (0xa7 + m) as u8) }
    }
    else if b0 == 68u8 { (seq![(0xc0 + m) as u8], 0xde) }
    else if b0 == 66u8 { (seq![(0xca + m) as u8], 0xde) }
    else if b0 == 80u8 { (seq![(0xca + m) as u8], 0xdf) }
    else if b0 == 81u8 { (seq![0xb8u8], (0xa7 + m) as u8) }
    else { (Seq::empty(), k) }
}

/// The kana (with its voiced mark) that a consonant followed by `Y` starts with.
pub open spec fn youon_head(b0: u8) -> Seq<u8> {
    if b0 == 75u8 || b0 == 67u8 { seq![0xb7u8] }
    else if b0 == 83u8 { seq![0xbcu8] }
    else if b0 == 84u8 { seq![0xc1u8] }
    else if b0 == 78u8 { seq![0xc6u8] }
    else if b0 == 72u8 { seq![0xcbu8] }
    else if b0 == 70u8 { seq![0xccu8] }
    else if b0 == 74u8 { seq![0xbcu8, 0xdeu8] }
    else if b0 == 77u8 { seq![0xd0u8] }
    else if b0 == 82u8 { seq![0xd8u8] }
    else if b0 == 71u8 { seq![0xb7u8, 0xdeu8] }
    else if b0 == 90u8 { seq![0xbcu8, 0xdeu8] }
    else if b0 == 68u8 { seq![0xc1u8, 0xdeu8] }
    else if b0 == 66u8 { seq![0xcbu8, 0xdeu8] }
    else if b0 == 80u8 { seq![0xcbu8, 0xdfu8] }
    else { Seq::empty() }
}

/// The bytes before the last one, and the last one (0: none), when vowel `m`
/// follows the two pending consonants `b0`, `b1`.
pub open spec fn two_consonants(b0: u8, b1: u8, m: int) -> (Seq<u8>, u8) {
    if (b0 == 67u8 || b0 == 83u8) && b1 == 72u8 {
        (seq![if b0 == 67u8 { 0xc1u8 } else { 0xbcu8 }], sh_vowel(m))
    } else if b0 == 84u8 && b1 == 83u8 && m == 2 {
        (Seq::empty(), 0xc2)
    } else if (b0 == 76u8 || b0 == 88u8) && b1 == 84u8 && m == 2 {
        (Seq::empty(), 0xaf)
    } else if (b0 == 84u8 || b0 == 68u8) && b1 == 72u8 {
        (seq![0xc3u8] + (if b0 == 68u8 { seq![0xdeu8] } else { Seq::empty() }), small_vowel(m))
    } else if b1 == 89u8 {
        (youon_head(b0), small_vowel(m))
    } else {
        (Seq::empty(), 0)
    }
}

/// One key of the converter: the new pending letters and the bytes for the screen.
pub open spec fn kana_step(b0: u8, b1: u8, kin: u8) -> (u8, u8, Seq<u8>) {
    let u = fold_upper(kin);
    let m = vowel_index(u);
    let k = punct_kana(u);
    if b0 == 0 {
        if m >= 0 {
            (b0, b1, seq![(0xb1 + m) as u8])
        } else if is_upper(k) {
            (k, 0, seq![k])
        } else {
            (b0, b1, opt_byte(k))
        }
    } else if b1 == 0 {
        if m >= 0 {
            let (p, last) = one_consonant(b0, m, k);
            (0, b1, seq![BS] + p + opt_byte(last))
        } else if k == b0 {
            if k == 78u8 { (0, b1, seq![BS, 0xddu8]) } else { (b0, b1, seq![BS, 0xafu8, k]) }
        } else if b0 == 78u8 && k != 89u8 {
            if is_upper(k) {
                (k, b1, seq![BS, 0xddu8, k])
            } else {
                (0, b1, seq![BS, 0xddu8] + opt_byte(if k == 0x27 { 0 } else { k }))
            }
        } else if is_upper(k) {
            (b0, k, seq![k])
        } else {
            (0, b1, opt_byte(k))
        }
    } else {
        if m >= 0 {
            let (p, last) = two_consonants(b0, b1, m);
            (0, 0, seq![BS, BS] + p + opt_byte(last))
        } else if is_upper(k) {
            (b1, k, seq![k])
        } else if k == BS {
            (b0, 0, seq![BS])
        } else {
            (0, b1, opt_byte(k))
        }
    }
}

/// A pending romaji letter: an upper-case consonant.
pub open spec fn is_pending_letter(c: u8) -> bool {
    is_upper(c) && vowel_index(c) < 0
}

/// Each buffer is empty or holds a pending consonant.
pub open spec fn pending_ok(b0: u8, b1: u8) -> bool {
    (b0 == 0 || is_pending_letter(b0)) && (b1 == 0 || is_pending_letter(b1))
}

/// How many pending letters are echoed on the screen.
pub open spec fn pending_count(b0: u8, b1: u8) -> int {
    (if b0 != 0 { 1int } else { 0int }) + (if b1 != 0 { 1int } else { 0int })
}

/// `out` is `j` backspaces followed by bytes that are not backspaces.
pub open spec fn leading_backspaces(out: Seq<u8>, j: int) -> bool {
    &&& 0 <= j <= out.len()
    &&& forall|i: int| 0 <= i < j ==> out[i] == BS
    &&& forall|i: int| j <= i < out.len() ==> out[i] != BS
}

/// The output of one `romajikana_input` call: at most five bytes.
#[derive(Debug, Clone, Copy)]
pub struct KanaOutput {
    bytes: [u8; 6],
    len: u8,
}

impl View for KanaOutput {
    type V = Seq<u8>;

    closed spec fn view(&self) -> Seq<u8> {
        self.bytes@.subrange(0, self.len as int)
    }
}

impl KanaOutput {
    /// The length stays within the buffer.
    pub closed spec fn wf(&self) -> bool {
        self.len <= 6
    }

    /// An empty output.
    pub fn new() -> (r: KanaOutput)
        ensures
            r.wf(),
            r@ == Seq::<u8>::empty(),
    {
        KanaOutput { bytes: [0u8; 6], len: 0 }
    }

    /// Appends one byte.
    pub fn push(&mut self, b: u8)
        requires
            old(self).wf(),
            old(self)@.len() < 6,
        ensures
            final(self).wf(),
            final(self)@ == old(self)@.push(b),
    {
        let i = self.len as usize;
        self.bytes[i] = b;
        self.len = self.len + 1;
        assert(self@ =~= old(self)@.push(b));
    }

    /// The bytes pushed so far.
    pub fn as_slice(&self) -> (r: &[u8])
        requires
            self.wf(),
        ensures
            r@ == self@,
    {
        let s: &[u8] = self.bytes.as_slice();
        &s[0..self.len as usize]
    }

    /// The byte at position `i` of the output, in the order pushed; `None`
    /// past its end.
    pub fn get(&self, i: usize) -> (r: Option<u8>)
        requires
            self.wf(),
        ensures
            r == (if i < self@.len() { Some(self@[i as int]) } else { None::<u8> }),
    {
        if i < self.len as usize {
            Some(self.bytes[i])
        } else {
            None
        }
    }

    /// The bytes of the output, in the order pushed (what iterating over it
    /// yields).
    pub fn to_vec(&self) -> (r: Vec<u8>)
        requires
            self.wf(),
        ensures
            r@ == self@,
    {
        let mut v: Vec<u8> = Vec::new();
        let mut i: usize = 0;
        while i < self.len as usize
            invariant
                self.wf(),
                i <= self.len,
                v@ == self@.subrange(0, i as int),
            decreases self.len - i,
        {
            v.push(self.bytes[i]);
            i = i + 1;
            assert(v@ =~= self@.subrange(0, i as int));
        }
        assert(v@ =~= self@);
        v
    }

    /// No byte was pushed.
    pub fn is_empty(&self) -> (r: bool)
        requires
            self.wf(),
        ensures
            r == (self@.len() == 0),
    {
        self.len == 0
    }

    /// The number of bytes pushed.
    pub fn len(&self) -> (r: usize)
        requires
            self.wf(),
        ensures
            r == self@.len(),
    {
        self.len as usize
    }
}

impl Default for KanaOutput {
    fn default() -> (r: KanaOutput)
        ensures
            r.wf(),
            r@ == Seq::<u8>::empty(),
    {
        KanaOutput::new()
    }
}

fn push_nonzero(out: &mut KanaOutput, k: u8)
    requires
        old(out).wf(),
        old(out)@.len() < 6,
    ensures
        final(out).wf(),
        final(out)@ == old(out)@ + opt_byte(k),
{
    if k != 0 {
        out.push(k);
    } else {
        assert(out@ =~= old(out)@ + opt_byte(k));
    }
}

fn sh_vowel_exec(m: u8) -> (r: u8)
    requires
        m <= 4,
    ensures
        r == sh_vowel(m as int),
{
    if m == 1 { 0 } else if m == 3 { 0xaa } else { 0xac + (m / 2) }
}

fn small_vowel_exec(m: u8) -> (r: u8)
    requires
        m <= 4,
    ensures
        r == small_vowel(m as int),
{
    if m % 2 == 0 {
        0xac + (m / 2)
    } else {
        0xa7 + m
    }
}

/// Vowel `m` after the single pending consonant `b0`: pushes the leading bytes
/// and returns the last one.
fn one_consonant_exec(out: &mut KanaOutput, b0: u8, m: u8, k: u8) -> (last: u8)
    requires
        old(out).wf(),
        old(out)@.len() <= 1,
        m <= 4,
    ensures
        final(out).wf(),
        final(out)@ == old(out)@ + one_consonant(b0, m as int, k).0,
        last == one_consonant(b0, m as int, k).1,
{
    let r: u8;
    if b0 == 75u8 || b0 == 67u8 {
        r = 0xb6 + m;
    } else if b0 == 83u8 {
        r = 0xbb + m;
    } else if b0 == 84u8 {
        r = 0xc0 + m;
    } else if b0 == 78u8 {
        r = 0xc5 + m;
    } else if b0 == 72u8 {
        r = 0xca + m;
    } else if b0 == 77u8 {
        r = 0xcf + m;
    } else if b0 == 89u8 {
        if m % 2 == 0 {
                r = 0xd4 + (m / 2);
        } else {
                r = 0xb1 + m;
        }
    } else if b0 == 82u8 {
        r = 0xd7 + m;
    } else if b0 == 87u8 {
        if m == 0 {
            r = 0xdc;
        } else if m == 2 {
            r = 0xb3;
        } else if m == 4 {
            r = 0xa6;
        } else {
            out.push(0xb3);
            r = 0xa7 + m;
        }
    } else if b0 == 76u8 || b0 == 88u8 {
        r = 0xa7 + m;
    } else if b0 == 71u8 {
        out.push(0xb6 + m);
        r = 0xde;
    } else if b0 == 90u8 {
        out.push(0xbb + m);
        r = 0xde;
    } else if b0 == 74u8 {
        out.push(0xbc);
        out.push(0xde);
        r = sh_vowel_exec(m);
    } else if b0 == 70u8 {
        out.push(0xcc);
        if m == 2 {
            r = 0;
        } else {
            r = 0xa7 + m;
        }
    } else if b0 == 86u8 {
        out.push(0xb3);
        out.push(0xde);
        if m == 2 {
            r = 0;
        } else {
            r = 0xa7 + m;
        }
    } else if b0 == 68u8 {
        out.push(0xc0 + m);
        r = 0xde;
    } else if b0 == 66u8 {
        out.push(0xca + m);
        r = 0xde;
    } else if b0 == 80u8 {
        out.push(0xca + m);
        r = 0xdf;
    } else if b0 == 81u8 {
        out.push(0xb8);
        r = 0xa7 + m;
    } else {
        r = k;
    }
    assert(out@ =~= old(out)@ + one_consonant(b0, m as int, k).0);
    r
}

/// Pushes the kana that a consonant followed by `Y` starts with.
fn youon_head_exec(out: &mut KanaOutput, b0: u8)
    requires
        old(out).wf(),
        old(out)@.len() <= 2,
    ensures
        final(out).wf(),
        final(out)@ == old(out)@ + youon_head(b0),
{
    if b0 == 75u8 || b0 == 67u8 {
        out.push(0xb6 + 1);
    } else if b0 == 83u8 {
        out.push(0xbb + 1);
    } else if b0 == 84u8 {
        out.push(0xc0 + 1);
    } else if b0 == 78u8 {
        out.push(0xc5 + 1);
    } else if b0 == 72u8 {
        out.push(0xca + 1);
    } else if b0 == 70u8 {
        out.push(0xca + 2);
    } else if b0 == 74u8 {
        out.push(0xbc);
        out.push(0xde);
    } else if b0 == 77u8 {
        out.push(0xcf + 1);
    } else if b0 == 82u8 {
        out.push(0xd7 + 1);
    } else if b0 == 71u8 {
        out.push(0xb6 + 1);
        out.push(0xde);
    } else if b0 == 90u8 {
        out.push(0xbb + 1);
        out.push(0xde);
    } else if b0 == 68u8 {
        out.push(0xc0 + 1);
        out.push(0xde);
    } else if b0 == 66u8 {
        out.push(0xca + 1);
        out.push(0xde);
    } else if b0 == 80u8 {
        out.push(0xca + 1);
        out.push(0xdf);
    }
    assert(out@ =~= old(out)@ + youon_head(b0));
}

/// Vowel `m` after the two pending consonants `b0`, `b1`: pushes the leading
/// bytes and returns the last one.
fn two_consonants_exec(out: &mut KanaOutput, b0: u8, b1: u8, m: u8) -> (last: u8)
    requires
        old(out).wf(),
        old(out)@.len() <= 2,
        m <= 4,
    ensures
        final(out).wf(),
        final(out)@ == old(out)@ + two_consonants(b0, b1, m as int).0,
        last == two_consonants(b0, b1, m as int).1,
{
    let r: u8;
    if (b0 == 67u8 || b0 == 83u8) && b1 == 72u8 {
        out.push(if b0 == 67u8 { 0xc1 } else { 0xbc });
        r = sh_vowel_exec(m);
    } else if b0 == 84u8 && b1 == 83u8 && m == 2 {
        r = 0xc2;
    } else if (b0 == 76u8 || b0 == 88u8) && b1 == 84u8 && m == 2 {
        r = 0xaf;
    } else if (b0 == 84u8 || b0 == 68u8) && b1 == 72u8 {
        out.push(0xc3);
        if b0 == 68u8 {
            out.push(0xde);
        }
        r = small_vowel_exec(m);
    } else if b1 == 89u8 {
        youon_head_exec(out, b0);
        r = small_vowel_exec(m);
    } else {
        r = 0;
    }
    assert(out@ =~= old(out)@ + two_consonants(b0, b1, m as int).0);
    r
}

fn vowel_index_exec(k: u8) -> (r: i32)
    ensures
        r == vowel_index(k),
{
    if k == 65u8 { 0 } else if k == 73u8 { 1 } else if k == 85u8 { 2 } else if k == 69u8 { 3 } else if k == 79u8 { 4 } else { -1 }
}

fn punct_kana_exec(k: u8) -> (r: u8)
    ensures
        r == punct_kana(k),
{
    if k == 46u8 { 0xa1 }
    else if k == 44u8 { 0xa4 }
    else if k == 45u8 { 0xb0 }
    else if k == 91u8 { 0xa2 }
    else if k == 93u8 { 0xa3 }
    else if k == 47u8 { 0xa5 }
    else if k == 92u8 { 0xa0 }
    else { k }
}

/// Feeds one typed character to the converter and returns the bytes to send to
/// the screen. `buf0` / `buf1` are the caller's pending romaji letters (0: none).
pub fn romajikana_input(buf0: &mut u8, buf1: &mut u8, k_in: u8) -> (out: KanaOutput)
    ensures
        out.wf(),
        (*final(buf0), *final(buf1), out@) == kana_step(*old(buf0), *old(buf1), k_in),
        out@.len() <= 5,
{
    let mut k: u8 = k_in;
    if 97u8 <= k && k <= 122u8 {
        k = k - 97u8 + 65u8;
    }
    let mi = vowel_index_exec(k);
    k = punct_kana_exec(k);
    let a2z = 65u8 <= k && k <= 90u8;
    let mut out = KanaOutput::new();
    let b0 = *buf0;
    let b1 = *buf1;

    if b0 == 0 {
        if mi >= 0 {
            k = 0xb1 + mi as u8;
        } else if a2z {
            *buf0 = k;
            *buf1 = 0;
        }
    } else if b1 == 0 {
        if mi >= 0 {
            out.push(BS);
            k = one_consonant_exec(&mut out, b0, mi as u8, k);
            *buf0 = 0;
        } else if k == b0 {
            out.push(BS);
            if k == 78u8 {
                k = 0xdd;
                *buf0 = 0;
            } else {
                out.push(0xaf);
            }
        } else if b0 == 78u8 && k != 89u8 {
            out.push(BS);
            out.push(0xdd);
            if a2z {
                *buf0 = k;
            } else {
                *buf0 = 0;
                if k == 0x27 {
                    k = 0;
                }
            }
        } else if a2z {
            *buf1 = k;
        } else {
            *buf0 = 0;
        }
    } else if mi >= 0 {
        out.push(BS);
        out.push(BS);
        k = two_consonants_exec(&mut out, b0, b1, mi as u8);
        *buf0 = 0;
        *buf1 = 0;
    } else if a2z {
        *buf0 = b1;
        *buf1 = k;
    } else if k == BS {
        *buf1 = 0;
    } else {
        *buf0 = 0;
    }
    push_nonzero(&mut out, k);
    proof {
        let s = kana_step(*old(buf0), *old(buf1), k_in);
        assert(out@ =~= s.2);
    }
    out
}

/// The buffers only ever hold pending consonants.
pub proof fn lemma_pending_stays_ok(b0: u8, b1: u8, k: u8)
    requires
        pending_ok(b0, b1),
    ensures
        pending_ok(kana_step(b0, b1, k).0, kana_step(b0, b1, k).1),
{
}

/// A typed character other than a backspace yields backspaces only at the start
/// of the output, and no more of them than there are pending letters echoed on
/// the screen: the converter erases its own echo and nothing else.
pub proof fn lemma_backspaces_erase_only_pending(b0: u8, b1: u8, k: u8)
    requires
        k != BS,
    ensures
        exists|j: int| #![trigger leading_backspaces(kana_step(b0, b1, k).2, j)]
            leading_backspaces(kana_step(b0, b1, k).2, j) && j <= pending_count(b0, b1),
{
    let out = kana_step(b0, b1, k).2;
    let u = fold_upper(k);
    let m = vowel_index(u);
    if b0 == 0 {
        assert(leading_backspaces(out, 0));
    } else if b1 == 0 {
        if m >= 0 || punct_kana(u) == b0 || (b0 == 78u8 && punct_kana(u) != 89u8) {
            assert(leading_backspaces(out, 1));
        } else {
            assert(leading_backspaces(out, 0));
        }
    } else {
        if m >= 0 {
            assert(leading_backspaces(out, 2));
        } else {
            assert(leading_backspaces(out, 0));
        }
    }
}

/// The consonants whose rows are full five-kana rows of the katakana block,
/// in the order of the kana table: K S T N H M.
pub open spec fn gojuon_consonants() -> Seq<u8> {
    seq![75u8, 83u8, 84u8, 78u8, 72u8, 77u8]
}

/// A consonant of the K S T N H M rows followed by a vowel types the kana of
/// that consonant's row and that vowel's column: the katakana block starts
/// with the vowel row (0xB1 + vowel) and each following row of the table
/// takes the next five codes. So the first letter echoes itself, and the vowel
/// erases it and types 0xB1 + 5 * (row + 1) + vowel; distinct rows or vowels
/// type distinct kana.
pub proof fn lemma_consonant_rows(row: int, v: u8, row2: int, v2: u8)
    requires
        0 <= row < 6,
        0 <= row2 < 6,
        vowel_index(fold_upper(v)) >= 0,
        vowel_index(fold_upper(v2)) >= 0,
    ensures
        ({
            let c = gojuon_consonants()[row];
            let kana = (0xB1 + 5 * (row + 1) + vowel_index(fold_upper(v))) as u8;
            &&& kana_step(0, 0, c) == (c, 0u8, seq![c])
            &&& kana_step(c, 0, v) == (0u8, 0u8, seq![BS, kana])
            &&& kana_step(0, 0, v) == (0u8, 0u8, seq![(0xB1 + vowel_index(fold_upper(v))) as u8])
        }),
        (row != row2 || vowel_index(fold_upper(v)) != vowel_index(fold_upper(v2))) ==>
            kana_step(gojuon_consonants()[row], 0, v) != kana_step(gojuon_consonants()[row2], 0, v2),
{
    let c = gojuon_consonants()[row];
    let c2 = gojuon_consonants()[row2];
    assert(kana_step(c, 0, v).2[1] == (0xB1 + 5 * (row + 1) + vowel_index(fold_upper(v))) as u8);
    assert(kana_step(c2, 0, v2).2[1] == (0xB1 + 5 * (row2 + 1) + vowel_index(fold_upper(v2))) as u8);
}

/// A voiced consonant types the kana of its unvoiced row followed by the
/// voiced mark (0xDE): G after K, Z after S, D after T, B after H; P types
/// the H-row kana with the semi-voiced mark (0xDF).
pub proof fn lemma_voiced_rows(v: u8)
    requires
        vowel_index(fold_upper(v)) >= 0,
    ensures
        kana_step(71, 0, v).2 == kana_step(75, 0, v).2.push(0xDE),
        kana_step(90, 0, v).2 == kana_step(83, 0, v).2.push(0xDE),
        kana_step(68, 0, v).2 == kana_step(84, 0, v).2.push(0xDE),
        kana_step(66, 0, v).2 == kana_step(72, 0, v).2.push(0xDE),
        kana_step(80, 0, v).2 == kana_step(72, 0, v).2.push(0xDF),
{
    assert(kana_step(71, 0, v).2 =~= kana_step(75, 0, v).2.push(0xDE));
    assert(kana_step(90, 0, v).2 =~= kana_step(83, 0, v).2.push(0xDE));
    assert(kana_step(68, 0, v).2 =~= kana_step(84, 0, v).2.push(0xDE));
    assert(kana_step(66, 0, v).2 =~= kana_step(72, 0, v).2.push(0xDE));
    assert(kana_step(80, 0, v).2 =~= kana_step(72, 0, v).2.push(0xDF));
}

} // verus!
