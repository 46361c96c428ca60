//! The tagged term: one machine word that carries its own type tag.
//!
//! The two lowest bits are the primary tag: header, cons, box or immediate.
//! An immediate spends two more bits to tell small integers from the second
//! level, which spends two more for atoms and the third level, which spends
//! two more for registers, stack slots and labels:
//!
//! ```text
//!   payload (62 bits)                    00    header, payload is a length
//!   address (low 2 bits clear)           10    box, payload is the address
//!   payload (60 bits, signed)          1111    small integer
//!   payload (58 bits)                001011    atom
//!   payload 0                        111011    nil
//!   payload (56 bits)              00101011    X register
//!   payload (56 bits)              01101011    Y register (stack slot)
//!   payload (56 bits)              10101011    label
//!   payload (56 bits)              11101011    floating-point register
//! ```
//!
//! Every other bit pattern belongs to no category of this layer.

use vstd::prelude::*;
use vstd::arithmetic::div_mod::{lemma_fundamental_div_mod, lemma_fundamental_div_mod_converse};
use crate::defs::{Word, SWord, MAX_ATOM_INDEX, MAX_HEADER_ARITY, MAX_INDEX, MAX_POS_SMALL, MIN_NEG_SMALL, MAX_UNSIG_SMALL};

verus! {

/// Width of the primary tag and its mask.
pub const PRIMARY_BITS: Word = 2;
pub const PRIMARY_MASK: Word = 0x03;

/// Primary tag of a header word.
pub const TAG_HEADER: Word = 0x00;

/// Primary tag of a boxed pointer.
pub const TAG_BOX: Word = 0x02;

/// Primary tag of every immediate.
pub const TAG_IMMED: Word = 0x03;

/// Width of the tag of a small integer and its mask.
pub const SMALL_TAG_BITS: Word = 4;
pub const SMALL_TAG_MASK: Word = 0x0f;

/// Tag of a small integer.
pub const TAG_SMALL: Word = 0x0f;

/// Width of the tag of a second-level immediate and its mask.
pub const IMMED2_BITS: Word = 6;
pub const IMMED2_MASK: Word = 0x3f;

/// Tag of an atom.
pub const TAG_ATOM: Word = 0x0b;

/// The one word that stands for the empty list.
pub const NIL_WORD: Word = 0x3b;

/// Width of the tag of a third-level immediate and its mask.
pub const IMMED3_BITS: Word = 8;
pub const IMMED3_MASK: Word = 0xff;

/// Tag of an X register reference.
pub const TAG_REGX: Word = 0x2b;

/// Tag of a Y register (stack slot) reference.
pub const TAG_REGY: Word = 0x6b;

/// Tag of a label reference.
pub const TAG_LABEL: Word = 0xab;

/// Tag of a floating-point register reference.
pub const TAG_REGFP: Word = 0xeb;

/// The categories of tagged words, without their payloads.
#[derive(Clone, Copy, Debug, PartialEq, Eq, Structural)]
pub enum Category {
    Small,
    Atom,
    Boxed,
    RegX,
    RegY,
    RegFp,
    Nil,
    Header,
    Label,
    /// A word that belongs to none of the categories above.
    Other,
}

/// What a tagged word means: its category together with its payload.
pub enum TermView {
    Small(int),
    Atom(nat),
    /// The address of the heap-resident structure.
    Boxed(nat),
    RegX(nat),
    RegY(nat),
    RegFp(nat),
    Nil,
    /// The length announced by a header word.
    Header(nat),
    Label(nat),
    /// A word that belongs to no category, kept as it is.
    Other(Word),
}

impl TermView {
    /// The category of a term, forgetting the payload.
    pub open spec fn category(self) -> Category {
        match self {
            TermView::Small(_) => Category::Small,
            TermView::Atom(_) => Category::Atom,
            TermView::Boxed(_) => Category::Boxed,
            TermView::RegX(_) => Category::RegX,
            TermView::RegY(_) => Category::RegY,
            TermView::RegFp(_) => Category::RegFp,
            TermView::Nil => Category::Nil,
            TermView::Header(_) => Category::Header,
            TermView::Label(_) => Category::Label,
            TermView::Other(_) => Category::Other,
        }
    }

    /// Of the categories, the immediates are complete in their word; a box
    /// points into the heap and a header stands in it.
    pub open spec fn is_immediate(self) -> bool {
        match self {
            TermView::Boxed(_) | TermView::Header(_) | TermView::Other(_) => false,
            _ => true,
        }
    }
}

/// An accessor was applied to a term of another category.
#[derive(Clone, Copy, Debug, PartialEq, Eq, Structural)]
pub struct TagError {
    /// The category the accessor is for.
    pub expected: Category,
    /// The category of the term it was given.
    pub actual: Category,
}

/// The error an accessor for `expected` gives on the term `t`.
pub open spec fn tag_mismatch(expected: Category, t: TermView) -> TagError {
    TagError { expected, actual: t.category() }
}

/// The signed number held in the 60 payload bits of a small integer, read as
/// two's complement.
pub open spec fn small_payload_value(payload: int) -> int {
    if payload < MAX_UNSIG_SMALL {
        payload
    } else {
        payload - 2 * MAX_UNSIG_SMALL
    }
}

/// The 60 payload bits that hold the small integer `n` in two's complement.
pub open spec fn small_payload_of(n: int) -> int {
    if n >= 0 {
        n
    } else {
        n + 2 * MAX_UNSIG_SMALL
    }
}

/// The meaning of a raw word, by its tag bits alone.
pub open spec fn decode(v: Word) -> TermView {
    if v % 4 == TAG_HEADER {
        TermView::Header((v / 4) as nat)
    } else if v % 4 == TAG_BOX {
        TermView::Boxed((v - TAG_BOX) as nat)
    } else if v % 16 == TAG_SMALL {
        TermView::Small(small_payload_value((v / 16) as int))
    } else if v % 64 == TAG_ATOM {
        TermView::Atom((v / 64) as nat)
    } else if v == NIL_WORD {
        TermView::Nil
    } else if v % 256 == TAG_REGX {
        TermView::RegX((v / 256) as nat)
    } else if v % 256 == TAG_REGY {
        TermView::RegY((v / 256) as nat)
    } else if v % 256 == TAG_LABEL {
        TermView::Label((v / 256) as nat)
    } else if v % 256 == TAG_REGFP {
        TermView::RegFp((v / 256) as nat)
    } else {
        TermView::Other(v)
    }
}

/// The word that stands for a meaning: the inverse of `decode` on the
/// meanings that a word can have.
pub open spec fn encode(t: TermView) -> int {
    match t {
        TermView::Small(n) => small_payload_of(n) * 16 + TAG_SMALL,
        TermView::Atom(i) => i * 64 + TAG_ATOM,
        TermView::Boxed(a) => a + TAG_BOX,
        TermView::RegX(i) => i * 256 + TAG_REGX,
        TermView::RegY(i) => i * 256 + TAG_REGY,
        TermView::RegFp(i) => i * 256 + TAG_REGFP,
        TermView::Nil => NIL_WORD as int,
        TermView::Header(n) => n * 4 + TAG_HEADER,
        TermView::Label(i) => i * 256 + TAG_LABEL,
        TermView::Other(w) => w as int,
    }
}

/// The meanings that a word can have: the payload fits beside the tag.
pub open spec fn representable(t: TermView) -> bool {
    match t {
        TermView::Small(n) => MIN_NEG_SMALL <= n <= MAX_POS_SMALL,
        TermView::Atom(i) => i <= MAX_ATOM_INDEX,
        TermView::Boxed(a) => a % 4 == 0 && a + TAG_BOX <= Word::MAX,
        TermView::RegX(i) => i <= MAX_INDEX,
        TermView::RegY(i) => i <= MAX_INDEX,
        TermView::RegFp(i) => i <= MAX_INDEX,
        TermView::Nil => true,
        TermView::Header(n) => n <= MAX_HEADER_ARITY,
        TermView::Label(i) => i <= MAX_INDEX,
        TermView::Other(w) => decode(w) == TermView::Other(w),
    }
}

/// The number of `true` among the first `n` of some tests.
pub open spec fn count_true(tests: Seq<bool>, n: nat) -> nat
    decreases n,
{
    if n == 0 || n > tests.len() {
        0
    } else {
        count_true(tests, (n - 1) as nat) + if tests[n - 1] {
            1nat
        } else {
            0nat
        }
    }
}

/// What the nine category tests answer on a term.
pub open spec fn category_tests(t: TermView) -> Seq<bool> {
    seq![
        t is Small,
        t is Atom,
        t is Boxed,
        t is RegX,
        t is RegY,
        t is RegFp,
        t is Nil,
        t is Header,
        t is Label,
    ]
}

/// The tag of a deeper level fixes the tags of the levels above it.
proof fn lemma_tag_levels(v: Word)
    by (bit_vector)
    ensures
        v % 16 == 15 ==> v % 4 == 3,
        v % 64 == 11 ==> v % 4 == 3 && v % 16 == 11,
        v % 256 == 0x2b ==> v % 4 == 3 && v % 16 == 11 && v % 64 == 43,
        v % 256 == 0x6b ==> v % 4 == 3 && v % 16 == 11 && v % 64 == 43,
        v % 256 == 0xab ==> v % 4 == 3 && v % 16 == 11 && v % 64 == 43,
        v % 256 == 0xeb ==> v % 4 == 3 && v % 16 == 11 && v % 64 == 43,
{
}

/// The word `payload * weight + tag` has the tag as remainder and the
/// payload as quotient.
proof fn lemma_tagged(payload: int, weight: int, tag: int)
    requires
        0 < weight,
        0 <= tag < weight,
    ensures
        (payload * weight + tag) % weight == tag,
        (payload * weight + tag) / weight == payload,
{
    lemma_fundamental_div_mod_converse(payload * weight + tag, weight, payload, tag);
}

/// Round trip from the meaning: the word built for a payload in range reads
/// back as that category with that payload.
pub proof fn lemma_decode_encode(t: TermView)
    requires
        representable(t),
    ensures
        0 <= encode(t) <= Word::MAX,
        decode(encode(t) as Word) == t,
{
    let v = encode(t);
    match t {
        TermView::Small(n) => {
            lemma_tagged(small_payload_of(n), 16, 15);
            lemma_tag_levels(v as Word);
        },
        TermView::Atom(i) => {
            lemma_tagged(i as int, 64, 11);
            lemma_tag_levels(v as Word);
        },
        TermView::Boxed(a) => {
            lemma_fundamental_div_mod(a as int, 4);
            lemma_tagged(a as int / 4, 4, 2);
        },
        TermView::RegX(i) => {
            lemma_tagged(i as int, 256, 0x2b);
            lemma_tag_levels(v as Word);
        },
        TermView::RegY(i) => {
            lemma_tagged(i as int, 256, 0x6b);
            lemma_tag_levels(v as Word);
        },
        TermView::RegFp(i) => {
            lemma_tagged(i as int, 256, 0xeb);
            lemma_tag_levels(v as Word);
        },
        TermView::Nil => {},
        TermView::Header(n) => {
            lemma_tagged(n as int, 4, 0);
        },
        TermView::Label(i) => {
            lemma_tagged(i as int, 256, 0xab);
            lemma_tag_levels(v as Word);
        },
        TermView::Other(_) => {},
    }
}

/// Round trip from the word: every word has a meaning in range, and the
/// meaning gives the word back.
pub proof fn lemma_encode_decode(w: Word)
    ensures
        representable(decode(w)),
        encode(decode(w)) == w,
{
    lemma_fundamental_div_mod(w as int, 4);
    lemma_fundamental_div_mod(w as int, 16);
    lemma_fundamental_div_mod(w as int, 64);
    lemma_fundamental_div_mod(w as int, 256);
    if w % 4 == 2 {
        lemma_tagged(w as int / 4, 4, 0);
    }
}

/// No two words mean the same: a box is never taken for an immediate, nor
/// one payload for another.
pub proof fn lemma_view_injective(a: LTerm, b: LTerm)
    requires
        a@ == b@,
    ensures
        a == b,
{
    lemma_encode_decode(a.value);
    lemma_encode_decode(b.value);
}

/// Exactly one of the category tests holds of a term that belongs to a
/// category, and none of a word that belongs to none.
pub proof fn lemma_one_category(t: LTerm)
    ensures
        count_true(category_tests(t@), 9) == if t@ is Other {
            0nat
        } else {
            1nat
        },
{
    reveal_with_fuel(count_true, 10);
}

/// Masking and shifting by a tag's width are remainder and quotient by the
/// matching power of two.
proof fn lemma_mask_shift(v: Word)
    by (bit_vector)
    ensures
        v & 0x03 == v % 4,
        v & 0x0f == v % 16,
        v & 0x3f == v % 64,
        v & 0xff == v % 256,
        v >> 2 == v / 4,
        v >> 4 == v / 16,
        v >> 6 == v / 64,
        v >> 8 == v / 256,
        v & !0x03u64 == v - v % 4,
{
}

/// Shifting a payload that fits and setting the tag bits is multiplying and
/// adding the tag.
proof fn lemma_pack(p: Word)
    by (bit_vector)
    ensures
        p <= 0x3fff_ffff_ffff_ffff ==> (p << 2) == p * 4,
        p <= 0x0fff_ffff_ffff_ffff ==> (p << 4) | 0x0f == p * 16 + 0x0f,
        p <= 0x03ff_ffff_ffff_ffff ==> (p << 6) | 0x0b == p * 64 + 0x0b,
        p <= 0x00ff_ffff_ffff_ffff ==> (p << 8) | 0x2b == p * 256 + 0x2b,
        p <= 0x00ff_ffff_ffff_ffff ==> (p << 8) | 0x6b == p * 256 + 0x6b,
        p <= 0x00ff_ffff_ffff_ffff ==> (p << 8) | 0xab == p * 256 + 0xab,
        p <= 0x00ff_ffff_ffff_ffff ==> (p << 8) | 0xeb == p * 256 + 0xeb,
        p % 4 == 0 ==> p | 0x02 == p + 2,
{
}

/// A runtime term packed into one machine word.
#[derive(Clone, Copy, Debug, PartialEq, Eq, Structural)]
pub struct LTerm {
    pub value: Word,
}

impl View for LTerm {
    type V = TermView;

    open spec fn view(&self) -> TermView {
        decode(self.value)
    }
}

impl LTerm {
    /// Takes a word as it stands in a code stream or a heap cell.
    pub fn from_raw(w: Word) -> (t: LTerm)
        ensures
            t.value == w,
    {
        LTerm { value: w }
    }

    /// The word itself.
    pub fn raw(&self) -> (w: Word)
        ensures
            w == self.value,
    {
        self.value
    }

    //
    // Constructors, one per category
    //

    /// The atom with the given index in the atom table.
    pub fn make_atom(index: Word) -> (t: LTerm)
        requires
            index <= MAX_ATOM_INDEX,
        ensures
            t@ == TermView::Atom(index as nat),
            t.value == encode(t@),
    {
        proof {
            lemma_pack(index);
        }
        LTerm { value: (index << IMMED2_BITS) | TAG_ATOM }
    }

    /// The small integer `n`.
    pub fn make_small_i(n: SWord) -> (t: LTerm)
        requires
            MIN_NEG_SMALL <= n <= MAX_POS_SMALL,
        ensures
            t@ == TermView::Small(n as int),
            t.value == encode(t@),
    {
        let payload: Word = if n >= 0 {
            n as Word
        } else {
            (n + MAX_POS_SMALL + MAX_POS_SMALL + 2) as Word
        };
        proof {
            lemma_pack(payload);
        }
        LTerm { value: (payload << SMALL_TAG_BITS) | TAG_SMALL }
    }

    /// The small integer with the unsigned value `n`.
    pub fn make_small_u(n: Word) -> (t: LTerm)
        requires
            n < MAX_UNSIG_SMALL,
        ensures
            t@ == TermView::Small(n as int),
            t.value == encode(t@),
    {
        proof {
            lemma_pack(n);
        }
        LTerm { value: (n << SMALL_TAG_BITS) | TAG_SMALL }
    }

    /// A reference to the heap-resident structure at `addr`, an address whose
    /// two lowest bits are clear.
    pub fn make_box(addr: Word) -> (t: LTerm)
        requires
            addr % 4 == 0,
        ensures
            t@ == TermView::Boxed(addr as nat),
            t.value == encode(t@),
    {
        proof {
            lemma_pack(addr);
        }
        LTerm { value: addr | TAG_BOX }
    }

    /// A reference to the X register `index`.
    pub fn make_xreg(index: Word) -> (t: LTerm)
        requires
            index <= MAX_INDEX,
        ensures
            t@ == TermView::RegX(index as nat),
            t.value == encode(t@),
    {
        proof {
            lemma_pack(index);
        }
        LTerm { value: (index << IMMED3_BITS) | TAG_REGX }
    }

    /// A reference to the stack slot `index`, counted from the top of the
    /// stack.
    pub fn make_yreg(index: Word) -> (t: LTerm)
        requires
            index <= MAX_INDEX,
        ensures
            t@ == TermView::RegY(index as nat),
            t.value == encode(t@),
    {
        proof {
            lemma_pack(index);
        }
        LTerm { value: (index << IMMED3_BITS) | TAG_REGY }
    }

    /// A reference to the floating-point register `index`.
    pub fn make_fpreg(index: Word) -> (t: LTerm)
        requires
            index <= MAX_INDEX,
        ensures
            t@ == TermView::RegFp(index as nat),
            t.value == encode(t@),
    {
        proof {
            lemma_pack(index);
        }
        LTerm { value: (index << IMMED3_BITS) | TAG_REGFP }
    }

    /// A reference to the label `index`.
    pub fn make_label(index: Word) -> (t: LTerm)
        requires
            index <= MAX_INDEX,
        ensures
            t@ == TermView::Label(index as nat),
            t.value == encode(t@),
    {
        proof {
            lemma_pack(index);
        }
        LTerm { value: (index << IMMED3_BITS) | TAG_LABEL }
    }

    /// The empty list.
    pub fn nil() -> (t: LTerm)
        ensures
            t@ == TermView::Nil,
            t.value == encode(t@),
    {
        LTerm { value: NIL_WORD }
    }

    /// The header word that announces `arity` words to follow.
    pub fn make_header(arity: Word) -> (t: LTerm)
        requires
            arity <= MAX_HEADER_ARITY,
        ensures
            t@ == TermView::Header(arity as nat),
            t.value == encode(t@),
    {
        proof {
            lemma_pack(arity);
        }
        LTerm { value: arity << PRIMARY_BITS }
    }

    //
    // Category tests
    //

    /// The category of this term.
    pub fn category(&self) -> (c: Category)
        ensures
            c == self@.category(),
    {
        let v = self.value;
        proof {
            lemma_mask_shift(v);
        }
        let primary = v & PRIMARY_MASK;
        if primary == TAG_HEADER {
            Category::Header
        } else if primary == TAG_BOX {
            Category::Boxed
        } else if v & SMALL_TAG_MASK == TAG_SMALL {
            Category::Small
        } else if v & IMMED2_MASK == TAG_ATOM {
            Category::Atom
        } else if v == NIL_WORD {
            Category::Nil
        } else {
            let immed3 = v & IMMED3_MASK;
            if immed3 == TAG_REGX {
                Category::RegX
            } else if immed3 == TAG_REGY {
                Category::RegY
            } else if immed3 == TAG_LABEL {
                Category::Label
            } else if immed3 == TAG_REGFP {
                Category::RegFp
            } else {
                Category::Other
            }
        }
    }

    /// Whether the word is an immediate: complete in itself, with nothing on
    /// the heap. The primary tag alone tells, so that a box is never taken
    /// for an immediate nor an immediate followed into the heap.
    pub fn is_immediate(&self) -> (b: bool)
        ensures
            b == (self.value % 4 == TAG_IMMED),
            !(self@ is Other) ==> b == self@.is_immediate(),
    {
        proof {
            lemma_mask_shift(self.value);
            lemma_tag_levels(self.value);
        }
        self.value & PRIMARY_MASK == TAG_IMMED
    }

    pub fn is_small(&self) -> (b: bool)
        ensures
            b == (self@ is Small),
    {
        proof {
            lemma_mask_shift(self.value);
        }
        self.value & SMALL_TAG_MASK == TAG_SMALL
    }

    pub fn is_atom(&self) -> (b: bool)
        ensures
            b == (self@ is Atom),
    {
        proof {
            lemma_mask_shift(self.value);
        }
        self.value & IMMED2_MASK == TAG_ATOM
    }

    pub fn is_box(&self) -> (b: bool)
        ensures
            b == (self@ is Boxed),
    {
        proof {
            lemma_mask_shift(self.value);
        }
        self.value & PRIMARY_MASK == TAG_BOX
    }

    pub fn is_regx(&self) -> (b: bool)
        ensures
            b == (self@ is RegX),
    {
        proof {
            lemma_mask_shift(self.value);
        }
        self.value & IMMED3_MASK == TAG_REGX
    }

    pub fn is_regy(&self) -> (b: bool)
        ensures
            b == (self@ is RegY),
    {
        proof {
            lemma_mask_shift(self.value);
        }
        self.value & IMMED3_MASK == TAG_REGY
    }

    pub fn is_regfp(&self) -> (b: bool)
        ensures
            b == (self@ is RegFp),
    {
        proof {
            lemma_mask_shift(self.value);
        }
        self.value & IMMED3_MASK == TAG_REGFP
    }

    pub fn is_label(&self) -> (b: bool)
        ensures
            b == (self@ is Label),
    {
        proof {
            lemma_mask_shift(self.value);
        }
        self.value & IMMED3_MASK == TAG_LABEL
    }

    pub fn is_nil(&self) -> (b: bool)
        ensures
            b == (self@ is Nil),
    {
        self.value == NIL_WORD
    }

    pub fn is_header(&self) -> (b: bool)
        ensures
            b == (self@ is Header),
    {
        proof {
            lemma_mask_shift(self.value);
        }
        self.value & PRIMARY_MASK == TAG_HEADER
    }

    //
    // Accessors: each gives the payload of its own category and a `TagError`
    // on every other term
    //

    /// The index of an atom.
    pub fn atom_index(&self) -> (r: Result<Word, TagError>)
        ensures
            match self@ {
                TermView::Atom(i) => r == Ok::<Word, TagError>(i as Word),
                _ => r == Err::<Word, TagError>(tag_mismatch(Category::Atom, self@)),
            },
    {
        proof {
            lemma_mask_shift(self.value);
        }
        if self.is_atom() {
            Ok(self.value >> IMMED2_BITS)
        } else {
            Err(TagError { expected: Category::Atom, actual: self.category() })
        }
    }

    /// The value of a small integer.
    pub fn small_get(&self) -> (r: Result<SWord, TagError>)
        ensures
            match self@ {
                TermView::Small(n) => r == Ok::<SWord, TagError>(n as SWord),
                _ => r == Err::<SWord, TagError>(tag_mismatch(Category::Small, self@)),
            },
    {
        proof {
            lemma_mask_shift(self.value);
        }
        if self.is_small() {
            let payload = self.value >> SMALL_TAG_BITS;
            if payload < MAX_UNSIG_SMALL {
                Ok(payload as SWord)
            } else {
                Ok((payload - MAX_UNSIG_SMALL) as SWord - MAX_POS_SMALL - 1)
            }
        } else {
            Err(TagError { expected: Category::Small, actual: self.category() })
        }
    }

    /// The address held by a boxed pointer.
    pub fn box_ptr(&self) -> (r: Result<Word, TagError>)
        ensures
            match self@ {
                TermView::Boxed(a) => r == Ok::<Word, TagError>(a as Word),
                _ => r == Err::<Word, TagError>(tag_mismatch(Category::Boxed, self@)),
            },
    {
        proof {
            lemma_mask_shift(self.value);
        }
        if self.is_box() {
            Ok(self.value & !PRIMARY_MASK)
        } else {
            Err(TagError { expected: Category::Boxed, actual: self.category() })
        }
    }

    /// The index of an X register reference.
    pub fn regx_get(&self) -> (r: Result<Word, TagError>)
        ensures
            match self@ {
                TermView::RegX(i) => r == Ok::<Word, TagError>(i as Word),
                _ => r == Err::<Word, TagError>(tag_mismatch(Category::RegX, self@)),
            },
    {
        proof {
            lemma_mask_shift(self.value);
        }
        if self.is_regx() {
            Ok(self.value >> IMMED3_BITS)
        } else {
            Err(TagError { expected: Category::RegX, actual: self.category() })
        }
    }

    /// The index of a stack slot reference.
    pub fn regy_get(&self) -> (r: Result<Word, TagError>)
        ensures
            match self@ {
                TermView::RegY(i) => r == Ok::<Word, TagError>(i as Word),
                _ => r == Err::<Word, TagError>(tag_mismatch(Category::RegY, self@)),
            },
    {
        proof {
            lemma_mask_shift(self.value);
        }
        if self.is_regy() {
            Ok(self.value >> IMMED3_BITS)
        } else {
            Err(TagError { expected: Category::RegY, actual: self.category() })
        }
    }

    /// The index of a floating-point register reference.
    pub fn regfp_get(&self) -> (r: Result<Word, TagError>)
        ensures
            match self@ {
                TermView::RegFp(i) => r == Ok::<Word, TagError>(i as Word),
                _ => r == Err::<Word, TagError>(tag_mismatch(Category::RegFp, self@)),
            },
    {
        proof {
            lemma_mask_shift(self.value);
        }
        if self.is_regfp() {
            Ok(self.value >> IMMED3_BITS)
        } else {
            Err(TagError { expected: Category::RegFp, actual: self.category() })
        }
    }

    /// The index of a label reference.
    pub fn label_get(&self) -> (r: Result<Word, TagError>)
        ensures
            match self@ {
                TermView::Label(i) => r == Ok::<Word, TagError>(i as Word),
                _ => r == Err::<Word, TagError>(tag_mismatch(Category::Label, self@)),
            },
    {
        proof {
            lemma_mask_shift(self.value);
        }
        if self.is_label() {
            Ok(self.value >> IMMED3_BITS)
        } else {
            Err(TagError { expected: Category::Label, actual: self.category() })
        }
    }

    /// The length announced by a header word.
    pub fn header_arity(&self) -> (r: Result<Word, TagError>)
        ensures
            match self@ {
                TermView::Header(n) => r == Ok::<Word, TagError>(n as Word),
                _ => r == Err::<Word, TagError>(tag_mismatch(Category::Header, self@)),
            },
    {
        proof {
            lemma_mask_shift(self.value);
        }
        if self.is_header() {
            Ok(self.value >> PRIMARY_BITS)
        } else {
            Err(TagError { expected: Category::Header, actual: self.category() })
        }
    }
}

} // verus!
