//! Type tags: the identity under which a value is stored in the context bag.
//!
//! A tag names a base type by its full path and records the generic wrappers
//! that enclose it, innermost first, so `Option<Vec<app::Color>>` is the base
//! `app::Color` wrapped in `List` and then in `Optional`.
use vstd::prelude::*;

verus! {

/// A generic wrapper around a base type.
#[derive(Clone, Copy, Debug, PartialEq, Eq, Structural)]
pub enum Wrap {
    /// `Option<T>`
    Optional,
    /// `Vec<T>`
    List,
    /// `Collected<T>`: a field collected on explicit request.
    Collected,
}

/// The mathematical identity of a type tag.
pub struct TypeKey {
    pub base: Seq<char>,
    pub wraps: Seq<Wrap>,
}

/// The text that opens a wrapper in a type name.
pub open spec fn wrap_prefix(w: Wrap) -> Seq<char> {
    match w {
        Wrap::Optional => "Option<"@,
        Wrap::List => "Vec<"@,
        Wrap::Collected => "Collected<"@,
    }
}

/// The rendered name of a base type under the given wrappers.
pub open spec fn render(base: Seq<char>, wraps: Seq<Wrap>) -> Seq<char>
    decreases wraps.len(),
{
    if wraps.len() == 0 {
        base
    } else {
        wrap_prefix(wraps.last()) + render(base, wraps.drop_last()) + ">"@
    }
}

impl TypeKey {
    pub open spec fn wrap(self, w: Wrap) -> TypeKey {
        TypeKey { base: self.base, wraps: self.wraps.push(w) }
    }

    pub open spec fn name(self) -> Seq<char> {
        render(self.base, self.wraps)
    }
}

/// Lexicographic order on characters, by code point.
pub open spec fn text_le(a: Seq<char>, b: Seq<char>) -> bool
    decreases a.len(),
{
    if a.len() == 0 {
        true
    } else if b.len() == 0 {
        false
    } else if (a[0] as u32) != (b[0] as u32) {
        (a[0] as u32) < (b[0] as u32)
    } else {
        text_le(a.drop_first(), b.drop_first())
    }
}

pub proof fn lemma_text_le_total(a: Seq<char>, b: Seq<char>)
    ensures
        text_le(a, b) || text_le(b, a),
    decreases a.len(),
{
    if a.len() > 0 && b.len() > 0 && (a[0] as u32) == (b[0] as u32) {
        lemma_text_le_total(a.drop_first(), b.drop_first());
    }
}

pub proof fn lemma_text_le_trans(a: Seq<char>, b: Seq<char>, c: Seq<char>)
    requires
        text_le(a, b),
        text_le(b, c),
    ensures
        text_le(a, c),
    decreases a.len(),
{
    if a.len() > 0 && b.len() > 0 && c.len() > 0 && (a[0] as u32) == (b[0] as u32) && (b[0]
        as u32) == (c[0] as u32) {
        lemma_text_le_trans(a.drop_first(), b.drop_first(), c.drop_first());
    }
}

/// Compares two texts in the order of `text_le`.
pub fn text_le_exec(a: &str, b: &str) -> (r: bool)
    ensures
        r == text_le(a@, b@),
{
    let la = a.unicode_len();
    let lb = b.unicode_len();
    let mut i: usize = 0;
    assert(a@.subrange(0, la as int) =~= a@);
    assert(b@.subrange(0, lb as int) =~= b@);
    while i < la && i < lb
        invariant
            la == a@.len(),
            lb == b@.len(),
            i <= la,
            i <= lb,
            forall|j: int| 0 <= j < i ==> (a@[j] as u32) == (b@[j] as u32),
            text_le(a@, b@) == text_le(a@.subrange(i as int, la as int), b@.subrange(
                i as int,
                lb as int,
            )),
        decreases la - i,
    {
        let ca = a.get_char(i);
        let cb = b.get_char(i);
        let ghost sa = a@.subrange(i as int, la as int);
        let ghost sb = b@.subrange(i as int, lb as int);
        if (ca as u32) != (cb as u32) {
            return (ca as u32) < (cb as u32);
        }
        assert(sa.drop_first() =~= a@.subrange(i + 1, la as int));
        assert(sb.drop_first() =~= b@.subrange(i + 1, lb as int));
        i = i + 1;
    }
    i == la
}

/// The tag of a type: its base type's full path and its wrappers.
#[derive(Clone, Debug)]
pub struct TypeTag {
    pub base: String,
    pub wraps: Vec<Wrap>,
}

impl View for TypeTag {
    type V = TypeKey;

    open spec fn view(&self) -> TypeKey {
        TypeKey { base: self.base@, wraps: self.wraps@ }
    }
}

impl TypeTag {
    /// The tag of a base type, given by its full path.
    pub fn named(base: &str) -> (r: TypeTag)
        ensures
            r@ == (TypeKey { base: base@, wraps: Seq::empty() }),
    {
        TypeTag { base: String::from_str(base), wraps: Vec::new() }
    }

    fn wrapped(self, w: Wrap) -> (r: TypeTag)
        ensures
            r@ == self@.wrap(w),
    {
        let mut t = self;
        t.wraps.push(w);
        t
    }

    /// The tag of `Option<Self>`.
    pub fn optional(self) -> (r: TypeTag)
        ensures
            r@ == self@.wrap(Wrap::Optional),
    {
        self.wrapped(Wrap::Optional)
    }

    /// The tag of `Vec<Self>`.
    pub fn list(self) -> (r: TypeTag)
        ensures
            r@ == self@.wrap(Wrap::List),
    {
        self.wrapped(Wrap::List)
    }

    /// The tag of `Collected<Self>`.
    pub fn collected(self) -> (r: TypeTag)
        ensures
            r@ == self@.wrap(Wrap::Collected),
    {
        self.wrapped(Wrap::Collected)
    }

    /// Whether two tags denote the same type.
    pub fn same_type(&self, other: &TypeTag) -> (r: bool)
        ensures
            r == (self@ == other@),
    {
        if self.base != other.base || self.wraps.len() != other.wraps.len() {
            return false;
        }
        let mut i: usize = 0;
        while i < self.wraps.len()
            invariant
                self.wraps.len() == other.wraps.len(),
                i <= self.wraps.len(),
                self.base@ == other.base@,
                forall|j: int| 0 <= j < i ==> self.wraps@[j] == other.wraps@[j],
            decreases self.wraps.len() - i,
        {
            if self.wraps[i] != other.wraps[i] {
                return false;
            }
            i = i + 1;
        }
        assert(self.wraps@ =~= other.wraps@);
        true
    }

    /// A copy of this tag.
    pub fn duplicate(&self) -> (r: TypeTag)
        ensures
            r@ == self@,
    {
        let mut wraps: Vec<Wrap> = Vec::new();
        let mut i: usize = 0;
        while i < self.wraps.len()
            invariant
                i <= self.wraps.len(),
                wraps@ == self.wraps@.subrange(0, i as int),
            decreases self.wraps.len() - i,
        {
            wraps.push(self.wraps[i]);
            i = i + 1;
        }
        assert(wraps@ =~= self.wraps@);
        TypeTag { base: self.base.clone(), wraps }
    }

    /// The rendered name of the type, such as `Option<Vec<app::Color>>`.
    pub fn name(&self) -> (r: String)
        ensures
            r@ == self@.name(),
    {
        let mut s = self.base.clone();
        let mut i: usize = 0;
        while i < self.wraps.len()
            invariant
                i <= self.wraps.len(),
                s@ == render(self.base@, self.wraps@.subrange(0, i as int)),
            decreases self.wraps.len() - i,
        {
            let prefix = match self.wraps[i] {
                Wrap::Optional => "Option<",
                Wrap::List => "Vec<",
                Wrap::Collected => "Collected<",
            };
            proof {
                reveal_strlit("Option<");
                reveal_strlit("Vec<");
                reveal_strlit("Collected<");
            }
            let opened = String::from_str(prefix).concat(s.as_str());
            s = opened.concat(">");
            assert(self.wraps@.subrange(0, i + 1).drop_last() =~= self.wraps@.subrange(
                0,
                i as int,
            ));
            i = i + 1;
        }
        assert(self.wraps@.subrange(0, self.wraps.len() as int) =~= self.wraps@);
        s
    }
}

} // verus!
