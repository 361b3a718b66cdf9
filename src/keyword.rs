use vstd::prelude::*;

verus! {

/// The reserved words of the language.
#[derive(Clone, Copy, Debug, PartialEq, Eq, Structural)]
pub enum Keyword {
    Let,
    Mut,
    Const,
    If,
    Elif,
    Else,
    For,
    Of,
    While,
    When,
    Case,
    And,
    Or,
    Fn,
    Break,
    Continue,
    Return,
    Trait,
    Ext,
    Impl,
    Enum,
    As,
    Export,
}

impl Keyword {
    /// The exact bytes that spell this keyword in source text.
    pub open spec fn spec_spelling(self) -> Seq<u8> {
        match self {
            Keyword::Let => seq![108u8, 101, 116],  // let
            Keyword::Mut => seq![109u8, 117, 116],  // mut
            Keyword::Const => seq![99u8, 111, 110, 115, 116],  // const
            Keyword::If => seq![105u8, 102],  // if
            Keyword::Elif => seq![101u8, 108, 105, 102],  // elif
            Keyword::Else => seq![101u8, 108, 115, 101],  // else
            Keyword::For => seq![102u8, 111, 114],  // for
            Keyword::Of => seq![111u8, 102],  // of
            Keyword::While => seq![119u8, 104, 105, 108, 101],  // while
            Keyword::When => seq![119u8, 104, 101, 110],  // when
            Keyword::Case => seq![99u8, 97, 115, 101],  // case
            Keyword::And => seq![97u8, 110, 100],  // and
            Keyword::Or => seq![111u8, 114],  // or
            Keyword::Fn => seq![102u8, 110],  // fn
            Keyword::Break => seq![98u8, 114, 101, 97, 107],  // break
            Keyword::Continue => seq![99u8, 111, 110, 116, 105, 110, 117, 101],  // continue
            Keyword::Return => seq![114u8, 101, 116, 117, 114, 110],  // return
            Keyword::Trait => seq![116u8, 114, 97, 105, 116],  // trait
            Keyword::Ext => seq![101u8, 120, 116],  // ext
            Keyword::Impl => seq![105u8, 109, 112, 108],  // impl
            Keyword::Enum => seq![101u8, 110, 117, 109],  // enum
            Keyword::As => seq![97u8, 115],  // as
            Keyword::Export => seq![101u8, 120, 112, 111, 114, 116],  // export
        }
    }

    /// The exact bytes that spell this keyword in source text.
    pub fn spelling(&self) -> (r: Vec<u8>)
        ensures
            r@ == self.spec_spelling(),
    {
        match self {
            Keyword::Let => vec![108u8, 101, 116],  // let
            Keyword::Mut => vec![109u8, 117, 116],  // mut
            Keyword::Const => vec![99u8, 111, 110, 115, 116],  // const
            Keyword::If => vec![105u8, 102],  // if
            Keyword::Elif => vec![101u8, 108, 105, 102],  // elif
            Keyword::Else => vec![101u8, 108, 115, 101],  // else
            Keyword::For => vec![102u8, 111, 114],  // for
            Keyword::Of => vec![111u8, 102],  // of
            Keyword::While => vec![119u8, 104, 105, 108, 101],  // while
            Keyword::When => vec![119u8, 104, 101, 110],  // when
            Keyword::Case => vec![99u8, 97, 115, 101],  // case
            Keyword::And => vec![97u8, 110, 100],  // and
            Keyword::Or => vec![111u8, 114],  // or
            Keyword::Fn => vec![102u8, 110],  // fn
            Keyword::Break => vec![98u8, 114, 101, 97, 107],  // break
            Keyword::Continue => vec![99u8, 111, 110, 116, 105, 110, 117, 101],  // continue
            Keyword::Return => vec![114u8, 101, 116, 117, 114, 110],  // return
            Keyword::Trait => vec![116u8, 114, 97, 105, 116],  // trait
            Keyword::Ext => vec![101u8, 120, 116],  // ext
            Keyword::Impl => vec![105u8, 109, 112, 108],  // impl
            Keyword::Enum => vec![101u8, 110, 117, 109],  // enum
            Keyword::As => vec![97u8, 115],  // as
            Keyword::Export => vec![101u8, 120, 112, 111, 114, 116],  // export
        }
    }
}

/// The keyword spelled exactly (case-sensitive, whole word) by `s`, if any.
pub open spec fn keyword_of(s: Seq<u8>) -> Option<Keyword> {
    if s == Keyword::Let.spec_spelling() {
        Some(Keyword::Let)
    } else if s == Keyword::Mut.spec_spelling() {
        Some(Keyword::Mut)
    } else if s == Keyword::Const.spec_spelling() {
        Some(Keyword::Const)
    } else if s == Keyword::If.spec_spelling() {
        Some(Keyword::If)
    } else if s == Keyword::Elif.spec_spelling() {
        Some(Keyword::Elif)
    } else if s == Keyword::Else.spec_spelling() {
        Some(Keyword::Else)
    } else if s == Keyword::For.spec_spelling() {
        Some(Keyword::For)
    } else if s == Keyword::Of.spec_spelling() {
        Some(Keyword::Of)
    } else if s == Keyword::While.spec_spelling() {
        Some(Keyword::While)
    } else if s == Keyword::When.spec_spelling() {
        Some(Keyword::When)
    } else if s == Keyword::Case.spec_spelling() {
        Some(Keyword::Case)
    } else if s == Keyword::And.spec_spelling() {
        Some(Keyword::And)
    } else if s == Keyword::Or.spec_spelling() {
        Some(Keyword::Or)
    } else if s == Keyword::Fn.spec_spelling() {
        Some(Keyword::Fn)
    } else if s == Keyword::Break.spec_spelling() {
        Some(Keyword::Break)
    } else if s == Keyword::Continue.spec_spelling() {
        Some(Keyword::Continue)
    } else if s == Keyword::Return.spec_spelling() {
        Some(Keyword::Return)
    } else if s == Keyword::Trait.spec_spelling() {
        Some(Keyword::Trait)
    } else if s == Keyword::Ext.spec_spelling() {
        Some(Keyword::Ext)
    } else if s == Keyword::Impl.spec_spelling() {
        Some(Keyword::Impl)
    } else if s == Keyword::Enum.spec_spelling() {
        Some(Keyword::Enum)
    } else if s == Keyword::As.spec_spelling() {
        Some(Keyword::As)
    } else if s == Keyword::Export.spec_spelling() {
        Some(Keyword::Export)
    } else {
        None
    }
}

/// Whether two byte strings are equal.
pub fn bytes_equal(a: &Vec<u8>, b: &Vec<u8>) -> (r: bool)
    ensures
        r == (a@ == b@),
{
    if a.len() != b.len() {
        return false;
    }
    let mut i: usize = 0;
    while i < a.len()
        invariant
            a@.len() == b@.len(),
            0 <= i <= a@.len(),
            forall|j: int| 0 <= j < i ==> a@[j] == b@[j],
        decreases a@.len() - i,
    {
        if a[i] != b[i] {
            return false;
        }
        i = i + 1;
    }
    assert(a@ =~= b@);
    true
}

/// Looks up the keyword spelled exactly by `s`.
pub fn lookup_keyword(s: &Vec<u8>) -> (r: Option<Keyword>)
    ensures
        r == keyword_of(s@),
{
    if bytes_equal(s, &Keyword::Let.spelling()) {
        Some(Keyword::Let)
    } else if bytes_equal(s, &Keyword::Mut.spelling()) {
        Some(Keyword::Mut)
    } else if bytes_equal(s, &Keyword::Const.spelling()) {
        Some(Keyword::Const)
    } else if bytes_equal(s, &Keyword::If.spelling()) {
        Some(Keyword::If)
    } else if bytes_equal(s, &Keyword::Elif.spelling()) {
        Some(Keyword::Elif)
    } else if bytes_equal(s, &Keyword::Else.spelling()) {
        Some(Keyword::Else)
    } else if bytes_equal(s, &Keyword::For.spelling()) {
        Some(Keyword::For)
    } else if bytes_equal(s, &Keyword::Of.spelling()) {
        Some(Keyword::Of)
    } else if bytes_equal(s, &Keyword::While.spelling()) {
        Some(Keyword::While)
    } else if bytes_equal(s, &Keyword::When.spelling()) {
        Some(Keyword::When)
    } else if bytes_equal(s, &Keyword::Case.spelling()) {
        Some(Keyword::Case)
    } else if bytes_equal(s, &Keyword::And.spelling()) {
        Some(Keyword::And)
    } else if bytes_equal(s, &Keyword::Or.spelling()) {
        Some(Keyword::Or)
    } else if bytes_equal(s, &Keyword::Fn.spelling()) {
        Some(Keyword::Fn)
    } else if bytes_equal(s, &Keyword::Break.spelling()) {
        Some(Keyword::Break)
    } else if bytes_equal(s, &Keyword::Continue.spelling()) {
        Some(Keyword::Continue)
    } else if bytes_equal(s, &Keyword::Return.spelling()) {
        Some(Keyword::Return)
    } else if bytes_equal(s, &Keyword::Trait.spelling()) {
        Some(Keyword::Trait)
    } else if bytes_equal(s, &Keyword::Ext.spelling()) {
        Some(Keyword::Ext)
    } else if bytes_equal(s, &Keyword::Impl.spelling()) {
        Some(Keyword::Impl)
    } else if bytes_equal(s, &Keyword::Enum.spelling()) {
        Some(Keyword::Enum)
    } else if bytes_equal(s, &Keyword::As.spelling()) {
        Some(Keyword::As)
    } else if bytes_equal(s, &Keyword::Export.spelling()) {
        Some(Keyword::Export)
    } else {
        None
    }
}


pub proof fn keyword_lookup_exact(s: Seq<u8>, k: Keyword)
    ensures
        keyword_of(s) == Some(k) <==> s == k.spec_spelling(),
{
}

} // verus!
