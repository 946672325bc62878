//! A small terminal user interface: text, headings, and a container that
//! frames its children in a box.
//!
//! ```text
//! +-----------------------------+
//! |Hello world                  |
//! |This is a long string of text|
//! +-----------------------------+
//! ```

use vstd::prelude::*;
use vstd::utf8::encode_utf8;

verus! {

/// The size of an element on screen, in columns and lines.
pub struct Dimensions {
    pub width: usize,
    pub height: usize,
}

/// A line of text.
pub struct Text {
    pub text: String,
}

/// A heading: a line of text set apart from the rest.
pub struct Heading {
    pub inner_text: Text,
}

/// Anything a container can hold.
pub enum Element {
    Text(Text),
    Heading(Heading),
}

/// The bytes of a string.
pub open spec fn bytes_of(s: String) -> Seq<u8> {
    encode_utf8(s@)
}

/// The bytes an element draws.
pub open spec fn element_bytes(e: Element) -> Seq<u8> {
    match e {
        Element::Text(t) => bytes_of(t.text),
        Element::Heading(h) => bytes_of(h.inner_text.text),
    }
}

/// The widest of the given elements, 0 for none.
pub open spec fn widest(children: Seq<Element>) -> nat
    decreases children.len(),
{
    if children.len() == 0 {
        0
    } else {
        let w = element_bytes(children.last()).len();
        let rest = widest(children.drop_last());
        if w > rest {
            w
        } else {
            rest
        }
    }
}

/// `+`
pub const CORNER: u8 = 43;
/// `-`
pub const DASH: u8 = 45;
/// `|`
pub const SIDE: u8 = 124;
/// A space.
pub const SPACE: u8 = 32;
/// A line feed.
pub const NEWLINE: u8 = 10;

/// `k` copies of byte `b`.
pub open spec fn repeat(b: u8, k: nat) -> Seq<u8> {
    Seq::new(k, |_i: int| b)
}

/// A horizontal border around `inner` columns: `+---+` and a newline.
pub open spec fn border(inner: nat) -> Seq<u8> {
    seq![CORNER] + repeat(DASH, inner) + seq![CORNER, NEWLINE]
}

/// One framed line: `|`, the element, spaces up to `inner` columns, `|`
/// and a newline.
pub open spec fn framed_row(e: Element, inner: nat) -> Seq<u8> {
    seq![SIDE] + element_bytes(e) + repeat(SPACE, (inner - element_bytes(e).len()) as nat) + seq![
        SIDE,
        NEWLINE,
    ]
}

/// The framed lines of all children, in order.
pub open spec fn framed_rows(children: Seq<Element>, inner: nat) -> Seq<u8>
    decreases children.len(),
{
    if children.len() == 0 {
        Seq::empty()
    } else {
        framed_rows(children.drop_last(), inner) + framed_row(children.last(), inner)
    }
}

/// The drawing of a container: a border, one framed line per child, and a
/// border, all as wide as the widest child plus the two sides.
pub open spec fn framed(children: Seq<Element>) -> Seq<u8> {
    border(widest(children)) + framed_rows(children, widest(children)) + border(widest(children))
}

fn push_repeat(out: &mut Vec<u8>, b: u8, k: usize)
    ensures
        final(out)@ == old(out)@ + repeat(b, k as nat),
{
    let ghost start = out@;
    let mut i: usize = 0;
    while i < k
        invariant
            i <= k,
            out@ == start + repeat(b, i as nat),
        decreases k - i,
    {
        out.push(b);
        i = i + 1;
        assert(out@ =~= start + repeat(b, i as nat));
    }
}

fn push_bytes(out: &mut Vec<u8>, bytes: &[u8])
    ensures
        final(out)@ == old(out)@ + bytes@,
{
    let ghost start = out@;
    let mut i: usize = 0;
    while i < bytes.len()
        invariant
            i <= bytes@.len(),
            out@ == start + bytes@.take(i as int),
        decreases bytes@.len() - i,
    {
        out.push(bytes[i]);
        i = i + 1;
        assert(out@ =~= start + bytes@.take(i as int));
    }
    assert(bytes@.take(bytes@.len() as int) =~= bytes@);
}

fn push_border(out: &mut Vec<u8>, inner: usize)
    ensures
        final(out)@ == old(out)@ + border(inner as nat),
{
    let ghost start = out@;
    out.push(CORNER);
    push_repeat(out, DASH, inner);
    out.push(CORNER);
    out.push(NEWLINE);
    assert(out@ =~= start + border(inner as nat));
}

impl Text {
    /// One line as wide as the text.
    pub fn dimensions(&self) -> (r: Dimensions)
        ensures
            r.width == bytes_of(self.text).len(),
            r.height == 1,
    {
        let bytes = self.text.as_str().as_bytes();
        Dimensions { width: bytes.len(), height: 1 }
    }
}

impl Heading {
    /// The dimensions of the heading's text.
    pub fn dimensions(&self) -> (r: Dimensions)
        ensures
            r.width == bytes_of(self.inner_text.text).len(),
            r.height == 1,
    {
        self.inner_text.dimensions()
    }
}

impl Element {
    /// One line as wide as the element's text.
    pub fn dimensions(&self) -> (r: Dimensions)
        ensures
            r.width == element_bytes(*self).len(),
            r.height == 1,
    {
        match self {
            Element::Text(t) => t.dimensions(),
            Element::Heading(h) => h.dimensions(),
        }
    }
}

/// A box around a column of elements.
pub struct Container {
    pub children: Vec<Element>,
}

impl Container {
    /// As wide as the widest child plus the two side borders, and one line
    /// per child.
    pub fn dimensions(&self) -> (r: Dimensions)
        requires
            widest(self.children@) + 2 <= usize::MAX,
        ensures
            r.width == widest(self.children@) + 2,
            r.height == self.children@.len(),
    {
        let mut max_width: usize = 0;
        let mut sum_height: usize = 0;
        let n = self.children.len();
        let mut i: usize = 0;
        while i < n
            invariant
                n == self.children@.len(),
                i <= n,
                widest(self.children@) + 2 <= usize::MAX,
                max_width == widest(self.children@.take(i as int)),
                sum_height == i,
            decreases n - i,
        {
            proof {
                assert(self.children@.take(i + 1).drop_last() =~= self.children@.take(i as int));
                lemma_widest_prefix(self.children@, i + 1);
            }
            let dims = self.children[i].dimensions();
            if dims.width > max_width {
                max_width = dims.width;
            }
            sum_height = sum_height + dims.height;
            i = i + 1;
        }
        proof {
            assert(self.children@.take(n as int) =~= self.children@);
        }
        Dimensions { width: max_width + 2, height: sum_height }
    }

    /// The drawing of the container, line by line.
    pub fn render(&self) -> (r: Vec<u8>)
        requires
            widest(self.children@) + 2 <= usize::MAX,
        ensures
            r@ == framed(self.children@),
    {
        let dims = self.dimensions();
        let inner = dims.width - 2;
        let mut out: Vec<u8> = Vec::new();
        push_border(&mut out, inner);
        let ghost head = out@;
        let n = self.children.len();
        let mut i: usize = 0;
        while i < n
            invariant
                n == self.children@.len(),
                i <= n,
                inner == widest(self.children@),
                out@ == head + framed_rows(self.children@.take(i as int), inner as nat),
            decreases n - i,
        {
            let child = &self.children[i];
            let text = match child {
                Element::Text(t) => &t.text,
                Element::Heading(h) => &h.inner_text.text,
            };
            let bytes = text.as_str().as_bytes();
            proof {
                lemma_widest_prefix(self.children@, i + 1);
                lemma_widest_last(self.children@.take(i + 1));
                assert(self.children@.take(i + 1).last() == self.children@[i as int]);
                assert(self.children@.take(i + 1).drop_last() =~= self.children@.take(i as int));
                assert(bytes@ == element_bytes(*child));
            }
            let ghost before = out@;
            out.push(SIDE);
            push_bytes(&mut out, bytes);
            push_repeat(&mut out, SPACE, inner - bytes.len());
            out.push(SIDE);
            out.push(NEWLINE);
            proof {
                assert(out@ =~= before + framed_row(self.children@[i as int], inner as nat));
            }
            i = i + 1;
            proof {
                assert(out@ =~= head + framed_rows(self.children@.take(i as int), inner as nat));
            }
        }
        proof {
            assert(self.children@.take(n as int) =~= self.children@);
        }
        push_border(&mut out, inner);
        proof {
            assert(out@ =~= framed(self.children@));
        }
        out
    }
}

/// The last element is no wider than the widest.
proof fn lemma_widest_last(s: Seq<Element>)
    requires
        s.len() > 0,
    ensures
        element_bytes(s.last()).len() <= widest(s),
{
}

/// No prefix is wider than the whole.
proof fn lemma_widest_prefix(s: Seq<Element>, k: int)
    requires
        0 <= k <= s.len(),
    ensures
        widest(s.take(k)) <= widest(s),
    decreases s.len() - k,
{
    if k < s.len() {
        lemma_widest_prefix(s, k + 1);
        assert(s.take(k + 1).drop_last() =~= s.take(k));
    } else {
        assert(s.take(k) =~= s);
    }
}

} // verus!
