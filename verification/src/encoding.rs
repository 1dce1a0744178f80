//! The `Encoding` entity: six parallel arrays indexed by token position,
//! its read accessors, and the `truncate` / `pad` transforms.

use vstd::prelude::*;

use crate::bytes::le_bytes_of;
use crate::bytes::u32s_to_le_bytes;

verus! {

/// The one failure mode of the transform operations: a direction argument
/// outside of `"left"` / `"right"`.
#[derive(Clone, Copy, Debug, PartialEq, Eq, Structural)]
pub enum EncodingError {
    InvalidArgument,
}

/// Which end of the token sequence a transform works on.
#[derive(Clone, Copy, Debug, PartialEq, Eq, Structural)]
pub enum Direction {
    Left,
    Right,
}

/// Decodes a direction argument. Exactly the two case-sensitive strings
/// `"left"` and `"right"` are accepted; anything else is an
/// `InvalidArgument` error, never a silent default.
pub fn parse_direction(s: &str) -> (r: Result<Direction, EncodingError>)
    ensures
        r is Ok <==> (s@ == "left"@ || s@ == "right"@),
        s@ == "left"@ ==> r == Ok::<Direction, EncodingError>(Direction::Left),
        s@ == "right"@ ==> r == Ok::<Direction, EncodingError>(Direction::Right),
        r is Err ==> r == Err::<Direction, EncodingError>(EncodingError::InvalidArgument),
{
    proof {
        reveal_strlit("left");
        reveal_strlit("right");
        assert("left"@.len() == 4);
        assert("right"@.len() == 5);
    }
    let v: String = s.to_owned();
    let left: String = "left".to_owned();
    let right: String = "right".to_owned();
    if v == left {
        Ok(Direction::Left)
    } else if v == right {
        Ok(Direction::Right)
    } else {
        Err(EncodingError::InvalidArgument)
    }
}

/// The mathematical content of an `Encoding`: one sequence per attribute,
/// all indexed by token position. Token text appears as its character
/// sequence.
#[verifier::ext_equal]
pub struct EncodingView {
    pub tokens: Seq<Seq<char>>,
    pub ids: Seq<u32>,
    pub type_ids: Seq<u32>,
    pub attention_mask: Seq<u32>,
    pub special_tokens_mask: Seq<u32>,
    pub offsets: Seq<(usize, usize)>,
}

impl EncodingView {
    /// The parallel-array invariant: all six attribute sequences have the
    /// same length, the token count.
    pub open spec fn well_formed(self) -> bool {
        &&& self.tokens.len() == self.ids.len()
        &&& self.type_ids.len() == self.ids.len()
        &&& self.attention_mask.len() == self.ids.len()
        &&& self.special_tokens_mask.len() == self.ids.len()
        &&& self.offsets.len() == self.ids.len()
    }

    /// The token count.
    pub open spec fn len(self) -> nat {
        self.ids.len()
    }
}

/// The tokenization result of one input sequence: for each token position
/// its surface text, vocabulary id, segment id, attention-mask bit,
/// special-token bit and byte-offset span, held in six index-aligned
/// arrays of equal length. Values are derived from an existing `Encoding`
/// only by `truncate` and `pad`, each of which yields a fresh, independently
/// owned result.
pub struct Encoding {
    tokens: Vec<String>,
    ids: Vec<u32>,
    type_ids: Vec<u32>,
    attention_mask: Vec<u32>,
    special_tokens_mask: Vec<u32>,
    offsets: Vec<(usize, usize)>,
}

impl View for Encoding {
    type V = EncodingView;

    closed spec fn view(&self) -> EncodingView {
        EncodingView {
            tokens: self.tokens.deep_view(),
            ids: self.ids@,
            type_ids: self.type_ids@,
            attention_mask: self.attention_mask@,
            special_tokens_mask: self.special_tokens_mask@,
            offsets: self.offsets@,
        }
    }
}

impl Encoding {
    #[verifier::type_invariant]
    spec fn parallel_arrays(self) -> bool {
        self@.well_formed()
    }

    /// Assembles an `Encoding` from its six attribute arrays. Construction
    /// is the one place the parallel-array invariant is established; every
    /// transform preserves it.
    pub fn new(
        tokens: Vec<String>,
        ids: Vec<u32>,
        type_ids: Vec<u32>,
        attention_mask: Vec<u32>,
        special_tokens_mask: Vec<u32>,
        offsets: Vec<(usize, usize)>,
    ) -> (r: Encoding)
        requires
            tokens@.len() == ids@.len(),
            type_ids@.len() == ids@.len(),
            attention_mask@.len() == ids@.len(),
            special_tokens_mask@.len() == ids@.len(),
            offsets@.len() == ids@.len(),
        ensures
            r@.tokens == tokens.deep_view(),
            r@.ids == ids@,
            r@.type_ids == type_ids@,
            r@.attention_mask == attention_mask@,
            r@.special_tokens_mask == special_tokens_mask@,
            r@.offsets == offsets@,
    {
        Encoding { tokens, ids, type_ids, attention_mask, special_tokens_mask, offsets }
    }

    /// The token count N. The parallel-array invariant in the
    /// postcondition makes `n` the length of every attribute array at
    /// once: length queries through any accessor agree.
    pub fn len(&self) -> (n: usize)
        ensures
            n == self@.len(),
            self@.well_formed(),
    {
        proof {
            use_type_invariant(self);
        }
        self.ids.len()
    }

    /// The token count N, under the name the host boundary uses.
    pub fn n_tokens(&self) -> (n: usize)
        ensures
            n == self@.len(),
            self@.well_formed(),
    {
        self.len()
    }

    /// An independent snapshot of the token texts.
    pub fn get_tokens(&self) -> (r: Vec<String>)
        ensures
            r.deep_view() == self@.tokens,
    {
        proof {
            use_type_invariant(self);
        }
        let r = slice_strings(&self.tokens, 0, self.tokens.len());
        proof {
            assert(r.deep_view() =~= self@.tokens);
        }
        r
    }

    /// An independent snapshot of the vocabulary ids.
    pub fn get_ids(&self) -> (r: Vec<u32>)
        ensures
            r@ == self@.ids,
    {
        let r = slice_copy(&self.ids, 0, self.ids.len());
        proof {
            assert(r@ =~= self@.ids);
        }
        r
    }

    /// An independent snapshot of the segment ids.
    pub fn get_type_ids(&self) -> (r: Vec<u32>)
        ensures
            r@ == self@.type_ids,
    {
        let r = slice_copy(&self.type_ids, 0, self.type_ids.len());
        proof {
            assert(r@ =~= self@.type_ids);
        }
        r
    }

    /// An independent snapshot of the attention mask.
    pub fn get_attention_mask(&self) -> (r: Vec<u32>)
        ensures
            r@ == self@.attention_mask,
    {
        let r = slice_copy(&self.attention_mask, 0, self.attention_mask.len());
        proof {
            assert(r@ =~= self@.attention_mask);
        }
        r
    }

    /// An independent snapshot of the special-tokens mask.
    pub fn get_special_tokens_mask(&self) -> (r: Vec<u32>)
        ensures
            r@ == self@.special_tokens_mask,
    {
        let r = slice_copy(&self.special_tokens_mask, 0, self.special_tokens_mask.len());
        proof {
            assert(r@ =~= self@.special_tokens_mask);
        }
        r
    }

    /// An independent snapshot of the byte-offset spans.
    pub fn get_offsets(&self) -> (r: Vec<(usize, usize)>)
        ensures
            r@ == self@.offsets,
    {
        let r = slice_copy(&self.offsets, 0, self.offsets.len());
        proof {
            assert(r@ =~= self@.offsets);
        }
        r
    }

    /// The vocabulary ids as their little-endian byte image, four bytes per
    /// token; `crate::bytes::lemma_le_bytes_round_trip` shows the image is
    /// lossless.
    pub fn get_u32_ids(&self) -> (r: Vec<u8>)
        ensures
            r@ == le_bytes_of(self@.ids),
            r@.len() == 4 * self@.ids.len(),
    {
        u32s_to_le_bytes(&self.ids)
    }

    /// The attention mask as its little-endian byte image.
    pub fn get_u32_attention_mask(&self) -> (r: Vec<u8>)
        ensures
            r@ == le_bytes_of(self@.attention_mask),
            r@.len() == 4 * self@.attention_mask.len(),
    {
        u32s_to_le_bytes(&self.attention_mask)
    }

    /// The segment ids as their little-endian byte image.
    pub fn get_u32_type_ids(&self) -> (r: Vec<u8>)
        ensures
            r@ == le_bytes_of(self@.type_ids),
            r@.len() == 4 * self@.type_ids.len(),
    {
        u32s_to_le_bytes(&self.type_ids)
    }

    /// The special-tokens mask as its little-endian byte image.
    pub fn get_u32_special_tokens_mask(&self) -> (r: Vec<u8>)
        ensures
            r@ == le_bytes_of(self@.special_tokens_mask),
            r@.len() == 4 * self@.special_tokens_mask.len(),
    {
        u32s_to_le_bytes(&self.special_tokens_mask)
    }
}

fn slice_copy<T: Copy>(v: &Vec<T>, start: usize, end: usize) -> (r: Vec<T>)
    requires
        start <= end,
        end <= v@.len(),
    ensures
        r@ == v@.subrange(start as int, end as int),
{
    let mut r: Vec<T> = Vec::new();
    let mut i: usize = start;
    while i < end
        invariant
            start <= i <= end,
            end <= v@.len(),
            r@.len() == i - start,
            forall|j: int| 0 <= j < r@.len() ==> r@[j] == v@[start + j],
        decreases end - i,
    {
        r.push(v[i]);
        i = i + 1;
    }
    proof {
        assert(r@ =~= v@.subrange(start as int, end as int));
    }
    r
}

fn slice_strings(v: &Vec<String>, start: usize, end: usize) -> (r: Vec<String>)
    requires
        start <= end,
        end <= v@.len(),
    ensures
        r.deep_view() == v.deep_view().subrange(start as int, end as int),
{
    let mut r: Vec<String> = Vec::new();
    let mut i: usize = start;
    while i < end
        invariant
            start <= i <= end,
            end <= v@.len(),
            r@.len() == i - start,
            forall|j: int| 0 <= j < r@.len() ==> r@[j]@ == v@[start + j]@,
        decreases end - i,
    {
        let elem: &String = &v[i];
        r.push(elem.clone());
        i = i + 1;
    }
    proof {
        assert(r.deep_view() =~= v.deep_view().subrange(start as int, end as int));
    }
    r
}

/// A sequence of `count` copies of one value.
pub open spec fn filled<T>(count: nat, x: T) -> Seq<T> {
    Seq::new(count, |i: int| x)
}

/// What `truncate` yields: at most `max_len` tokens, keeping the first
/// `max_len` for `Right` (the tail is dropped) or the last `max_len` for
/// `Left` (the head is dropped), every attribute array sliced by the same
/// index range.
pub open spec fn truncated(v: EncodingView, max_len: nat, dir: Direction) -> EncodingView
    recommends
        v.well_formed(),
{
    let n = v.len();
    let keep = if max_len < n { max_len } else { n };
    let start = if dir is Right { 0 } else { n - keep };
    let end = start + keep;
    EncodingView {
        tokens: v.tokens.subrange(start as int, end as int),
        ids: v.ids.subrange(start as int, end as int),
        type_ids: v.type_ids.subrange(start as int, end as int),
        attention_mask: v.attention_mask.subrange(start as int, end as int),
        special_tokens_mask: v.special_tokens_mask.subrange(start as int, end as int),
        offsets: v.offsets.subrange(start as int, end as int),
    }
}

/// What `pad` yields: exactly `target_length` tokens once `target_length`
/// exceeds the token count, the synthetic entries appended after (`Right`)
/// or prepended before (`Left`) the real ones; a no-op otherwise. A pad
/// entry carries the pad token text and ids, attention-mask bit 0,
/// special-token bit 1 and offsets `(0, 0)`.
pub open spec fn padded(
    v: EncodingView,
    target_length: nat,
    pad_id: u32,
    pad_type_id: u32,
    pad_token: Seq<char>,
    dir: Direction,
) -> EncodingView
    recommends
        v.well_formed(),
{
    let n = v.len();
    if target_length <= n {
        v
    } else {
        let count = (target_length - n) as nat;
        if dir is Right {
            EncodingView {
                tokens: v.tokens + filled(count, pad_token),
                ids: v.ids + filled(count, pad_id),
                type_ids: v.type_ids + filled(count, pad_type_id),
                attention_mask: v.attention_mask + filled(count, 0u32),
                special_tokens_mask: v.special_tokens_mask + filled(count, 1u32),
                offsets: v.offsets + filled(count, (0usize, 0usize)),
            }
        } else {
            EncodingView {
                tokens: filled(count, pad_token) + v.tokens,
                ids: filled(count, pad_id) + v.ids,
                type_ids: filled(count, pad_type_id) + v.type_ids,
                attention_mask: filled(count, 0u32) + v.attention_mask,
                special_tokens_mask: filled(count, 1u32) + v.special_tokens_mask,
                offsets: filled(count, (0usize, 0usize)) + v.offsets,
            }
        }
    }
}

/// Law: truncation preserves the parallel-array invariant, and the result
/// holds `min(max_len, len)` tokens.
pub proof fn lemma_truncated_well_formed(v: EncodingView, max_len: nat, dir: Direction)
    requires
        v.well_formed(),
    ensures
        truncated(v, max_len, dir).well_formed(),
        truncated(v, max_len, dir).len() == if max_len < v.len() { max_len } else { v.len() },
{
}

/// Law: a truncation that asks for at least the current token count is a
/// no-op; the result equals the input in all six arrays.
pub proof fn lemma_truncate_noop(v: EncodingView, max_len: nat, dir: Direction)
    requires
        v.well_formed(),
        max_len >= v.len(),
    ensures
        truncated(v, max_len, dir) == v,
{
    assert(truncated(v, max_len, dir) =~~= v);
}

/// Law: padding preserves the parallel-array invariant, and the result
/// holds `max(target_length, len)` tokens.
pub proof fn lemma_padded_well_formed(
    v: EncodingView,
    target_length: nat,
    pad_id: u32,
    pad_type_id: u32,
    pad_token: Seq<char>,
    dir: Direction,
)
    requires
        v.well_formed(),
    ensures
        padded(v, target_length, pad_id, pad_type_id, pad_token, dir).well_formed(),
        padded(v, target_length, pad_id, pad_type_id, pad_token, dir).len() == if target_length
            > v.len() {
            target_length
        } else {
            v.len()
        },
{
}

/// Law: a padding whose target does not exceed the current token count is
/// a no-op; the result equals the input in all six arrays.
pub proof fn lemma_pad_noop(
    v: EncodingView,
    target_length: nat,
    pad_id: u32,
    pad_type_id: u32,
    pad_token: Seq<char>,
    dir: Direction,
)
    requires
        target_length <= v.len(),
    ensures
        padded(v, target_length, pad_id, pad_type_id, pad_token, dir) == v,
{
}

fn fill_copy<T: Copy>(count: usize, x: T) -> (r: Vec<T>)
    ensures
        r@ == filled(count as nat, x),
{
    let mut r: Vec<T> = Vec::new();
    let mut i: usize = 0;
    while i < count
        invariant
            i <= count,
            r@.len() == i,
            forall|j: int| 0 <= j < i ==> r@[j] == x,
        decreases count - i,
    {
        r.push(x);
        i = i + 1;
    }
    proof {
        assert(r@ =~= filled(count as nat, x));
    }
    r
}

fn fill_strings(count: usize, x: &str) -> (r: Vec<String>)
    ensures
        r.deep_view() == filled(count as nat, x@),
{
    let mut r: Vec<String> = Vec::new();
    let mut i: usize = 0;
    while i < count
        invariant
            i <= count,
            r@.len() == i,
            forall|j: int| 0 <= j < i ==> r@[j]@ == x@,
        decreases count - i,
    {
        r.push(x.to_owned());
        i = i + 1;
    }
    proof {
        assert(r.deep_view() =~= filled(count as nat, x@));
    }
    r
}

fn pad_copy<T: Copy>(v: &Vec<T>, count: usize, x: T, left: bool) -> (r: Vec<T>)
    ensures
        left ==> r@ == filled(count as nat, x) + v@,
        !left ==> r@ == v@ + filled(count as nat, x),
{
    let mut fills = fill_copy(count, x);
    let mut base = slice_copy(v, 0, v.len());
    proof {
        assert(base@ =~= v@);
    }
    if left {
        fills.append(&mut base);
        fills
    } else {
        base.append(&mut fills);
        base
    }
}

fn pad_strings(v: &Vec<String>, count: usize, x: &str, left: bool) -> (r: Vec<String>)
    ensures
        left ==> r.deep_view() == filled(count as nat, x@) + v.deep_view(),
        !left ==> r.deep_view() == v.deep_view() + filled(count as nat, x@),
{
    let mut r: Vec<String> = Vec::new();
    if left {
        let mut i: usize = 0;
        while i < count
            invariant
                i <= count,
                r@.len() == i,
                forall|j: int| 0 <= j < i ==> r@[j]@ == x@,
            decreases count - i,
        {
            r.push(x.to_owned());
            i = i + 1;
        }
        let mut k: usize = 0;
        while k < v.len()
            invariant
                k <= v@.len(),
                r@.len() == count + k,
                forall|j: int| 0 <= j < count ==> r@[j]@ == x@,
                forall|j: int| 0 <= j < k ==> r@[count + j]@ == v@[j]@,
            decreases v@.len() - k,
        {
            let elem: &String = &v[k];
            r.push(elem.clone());
            k = k + 1;
        }
        proof {
            assert(r.deep_view() =~= filled(count as nat, x@) + v.deep_view());
        }
    } else {
        let mut k: usize = 0;
        while k < v.len()
            invariant
                k <= v@.len(),
                r@.len() == k,
                forall|j: int| 0 <= j < k ==> r@[j]@ == v@[j]@,
            decreases v@.len() - k,
        {
            let elem: &String = &v[k];
            r.push(elem.clone());
            k = k + 1;
        }
        let mut i: usize = 0;
        while i < count
            invariant
                i <= count,
                r@.len() == v@.len() + i,
                forall|j: int| 0 <= j < v@.len() ==> r@[j]@ == v@[j]@,
                forall|j: int| v@.len() <= j < v@.len() + i ==> (#[trigger] r@[j])@ == x@,
            decreases count - i,
        {
            r.push(x.to_owned());
            i = i + 1;
        }
        proof {
            assert(r.deep_view() =~= v.deep_view() + filled(count as nat, x@));
        }
    }
    r
}

impl Encoding {
    /// Derives a new `Encoding` limited to at most `max_len` tokens:
    /// `"right"` keeps the first `max_len` tokens, `"left"` the last
    /// `max_len`, with all six arrays sliced by the same index range.
    /// `stride` names the overlap the caller plans between successive
    /// windows; it does not change which tokens the kept region holds.
    /// A `max_len` of at least the token count is a no-op; a direction
    /// outside `"left"` / `"right"` is an `InvalidArgument` error.
    pub fn truncate(&self, max_len: usize, stride: usize, direction: &str) -> (r: Result<
        Encoding,
        EncodingError,
    >)
        ensures
            r is Ok <==> (direction@ == "left"@ || direction@ == "right"@),
            r is Err ==> r == Err::<Encoding, EncodingError>(EncodingError::InvalidArgument),
            direction@ == "right"@ ==> (r->Ok_0)@ == truncated(
                self@,
                max_len as nat,
                Direction::Right,
            ),
            direction@ == "left"@ ==> (r->Ok_0)@ == truncated(
                self@,
                max_len as nat,
                Direction::Left,
            ),
            r is Ok ==> (r->Ok_0)@.well_formed(),
    {
        let dir = match parse_direction(direction) {
            Ok(d) => d,
            Err(e) => {
                return Err(e);
            },
        };
        proof {
            use_type_invariant(self);
        }
        let _ = stride;
        let n = self.ids.len();
        let keep = if max_len < n {
            max_len
        } else {
            n
        };
        let start = match dir {
            Direction::Right => 0,
            Direction::Left => n - keep,
        };
        let end = start + keep;
        let enc = Encoding {
            tokens: slice_strings(&self.tokens, start, end),
            ids: slice_copy(&self.ids, start, end),
            type_ids: slice_copy(&self.type_ids, start, end),
            attention_mask: slice_copy(&self.attention_mask, start, end),
            special_tokens_mask: slice_copy(&self.special_tokens_mask, start, end),
            offsets: slice_copy(&self.offsets, start, end),
        };
        proof {
            assert(enc@ =~= truncated(self@, max_len as nat, dir));
        }
        Ok(enc)
    }

    /// Derives a new `Encoding` of exactly `target_length` tokens when
    /// `target_length` exceeds the token count, appending (`"right"`) or
    /// prepending (`"left"`) synthetic pad entries; a no-op otherwise.
    /// Real entries keep their values and relative order. A direction
    /// outside `"left"` / `"right"` is an `InvalidArgument` error.
    pub fn pad(
        &self,
        target_length: usize,
        pad_id: u32,
        pad_type_id: u32,
        pad_token: &str,
        direction: &str,
    ) -> (r: Result<Encoding, EncodingError>)
        ensures
            r is Ok <==> (direction@ == "left"@ || direction@ == "right"@),
            r is Err ==> r == Err::<Encoding, EncodingError>(EncodingError::InvalidArgument),
            direction@ == "right"@ ==> (r->Ok_0)@ == padded(
                self@,
                target_length as nat,
                pad_id,
                pad_type_id,
                pad_token@,
                Direction::Right,
            ),
            direction@ == "left"@ ==> (r->Ok_0)@ == padded(
                self@,
                target_length as nat,
                pad_id,
                pad_type_id,
                pad_token@,
                Direction::Left,
            ),
            r is Ok ==> (r->Ok_0)@.well_formed(),
    {
        let dir = match parse_direction(direction) {
            Ok(d) => d,
            Err(e) => {
                return Err(e);
            },
        };
        proof {
            use_type_invariant(self);
        }
        let n = self.ids.len();
        if target_length <= n {
            let enc = self.snapshot();
            proof {
                assert(enc@ =~~= padded(
                    self@,
                    target_length as nat,
                    pad_id,
                    pad_type_id,
                    pad_token@,
                    dir,
                ));
            }
            Ok(enc)
        } else {
            let count = target_length - n;
            let left = match dir {
                Direction::Left => true,
                Direction::Right => false,
            };
            let enc = Encoding {
                tokens: pad_strings(&self.tokens, count, pad_token, left),
                ids: pad_copy(&self.ids, count, pad_id, left),
                type_ids: pad_copy(&self.type_ids, count, pad_type_id, left),
                attention_mask: pad_copy(&self.attention_mask, count, 0, left),
                special_tokens_mask: pad_copy(&self.special_tokens_mask, count, 1, left),
                offsets: pad_copy(&self.offsets, count, (0, 0), left),
            };
            proof {
                assert(enc@ =~= padded(
                    self@,
                    target_length as nat,
                    pad_id,
                    pad_type_id,
                    pad_token@,
                    dir,
                ));
            }
            Ok(enc)
        }
    }

    fn snapshot(&self) -> (r: Encoding)
        ensures
            r@ == self@,
    {
        proof {
            use_type_invariant(self);
        }
        let enc = Encoding {
            tokens: slice_strings(&self.tokens, 0, self.tokens.len()),
            ids: slice_copy(&self.ids, 0, self.ids.len()),
            type_ids: slice_copy(&self.type_ids, 0, self.type_ids.len()),
            attention_mask: slice_copy(&self.attention_mask, 0, self.attention_mask.len()),
            special_tokens_mask: slice_copy(
                &self.special_tokens_mask,
                0,
                self.special_tokens_mask.len(),
            ),
            offsets: slice_copy(&self.offsets, 0, self.offsets.len()),
        };
        proof {
            assert(enc@ =~~= self@);
        }
        enc
    }
}

} // verus!

