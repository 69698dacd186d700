//! Turning source identifiers into legal Python identifiers.

use smol_str::StrExt;
use vstd::prelude::*;
use vstd::string::*;

verus! {

/// The reserved words of Python 3.
pub open spec fn is_keyword_spec(w: Seq<char>) -> bool {
    w == "False"@
        || w == "await"@
        || w == "else"@
        || w == "import"@
        || w == "pass"@
        || w == "None"@
        || w == "break"@
        || w == "except"@
        || w == "in"@
        || w == "raise"@
        || w == "True"@
        || w == "class"@
        || w == "finally"@
        || w == "is"@
        || w == "return"@
        || w == "and"@
        || w == "continue"@
        || w == "for"@
        || w == "lambda"@
        || w == "try"@
        || w == "as"@
        || w == "def"@
        || w == "from"@
        || w == "nonlocal"@
        || w == "while"@
        || w == "assert"@
        || w == "del"@
        || w == "global"@
        || w == "not"@
        || w == "with"@
        || w == "async"@
        || w == "elif"@
        || w == "if"@
        || w == "or"@
        || w == "yield"@
}

/// Every `-` replaced by `_`, every other character kept.
pub open spec fn replace_hyphens(s: Seq<char>) -> Seq<char> {
    s.map_values(|c: char| if c == '-' { '_' } else { c })
}

/// The sanitized form of an identifier: hyphens become underscores, and a
/// result that is a reserved word gets a trailing underscore.
pub open spec fn ident_spec(s: Seq<char>) -> Seq<char> {
    let t = replace_hyphens(s);
    if is_keyword_spec(t) {
        t + "_"@
    } else {
        t
    }
}

/// Equality of two strings, character by character.
pub fn str_eq(a: &str, b: &str) -> (r: bool)
    ensures
        r == (a@ == b@),
{
    let n = a.unicode_len();
    if n != b.unicode_len() {
        return false;
    }
    let mut i: usize = 0;
    while i < n
        invariant
            0 <= i <= n,
            n == a@.len(),
            n == b@.len(),
            forall|j: int| 0 <= j < i ==> a@[j] == b@[j],
        decreases n - i,
    {
        if a.get_char(i) != b.get_char(i) {
            return false;
        }
        i += 1;
    }
    assert(a@ =~= b@);
    true
}

/// Whether `word` is one of Python's reserved words.
pub fn is_python_keyword(word: &str) -> (r: bool)
    ensures
        r == is_keyword_spec(word@),
{
    str_eq(word, "False")
        || str_eq(word, "await")
        || str_eq(word, "else")
        || str_eq(word, "import")
        || str_eq(word, "pass")
        || str_eq(word, "None")
        || str_eq(word, "break")
        || str_eq(word, "except")
        || str_eq(word, "in")
        || str_eq(word, "raise")
        || str_eq(word, "True")
        || str_eq(word, "class")
        || str_eq(word, "finally")
        || str_eq(word, "is")
        || str_eq(word, "return")
        || str_eq(word, "and")
        || str_eq(word, "continue")
        || str_eq(word, "for")
        || str_eq(word, "lambda")
        || str_eq(word, "try")
        || str_eq(word, "as")
        || str_eq(word, "def")
        || str_eq(word, "from")
        || str_eq(word, "nonlocal")
        || str_eq(word, "while")
        || str_eq(word, "assert")
        || str_eq(word, "del")
        || str_eq(word, "global")
        || str_eq(word, "not")
        || str_eq(word, "with")
        || str_eq(word, "async")
        || str_eq(word, "elif")
        || str_eq(word, "if")
        || str_eq(word, "or")
        || str_eq(word, "yield")
}

/// Whether the text holds a `-`.
pub fn contains_hyphen(s: &str) -> (r: bool)
    ensures
        r == s@.contains('-'),
{
    let n = s.unicode_len();
    let mut i: usize = 0;
    while i < n
        invariant
            0 <= i <= n,
            n == s@.len(),
            forall|j: int| 0 <= j < i ==> s@[j] != '-',
        decreases n - i,
    {
        if s.get_char(i) == '-' {
            assert(s@[i as int] == '-');
            return true;
        }
        i += 1;
    }
    false
}

/// Relies on smol_str's `StrExt::replace_smolstr` (called with `"-"` and
/// `"_"`): each `-` of the text becomes `_`, every other character is kept.
#[verifier::external_body]
fn replace_hyphens_with_underscores(s: &str) -> (r: String)
    ensures
        r@ == replace_hyphens(s@),
{
    s.replace_smolstr("-", "_").to_string()
}

/// Maps a source identifier to a legal Python identifier.
pub fn ident(s: &str) -> (r: String)
    ensures
        r@ == ident_spec(s@),
{
    let legal = if contains_hyphen(s) {
        replace_hyphens_with_underscores(s)
    } else {
        let copy = String::from_str(s);
        assert(replace_hyphens(s@) =~= s@);
        copy
    };
    if is_python_keyword(legal.as_str()) {
        legal.concat("_")
    } else {
        legal
    }
}

/// Sanitizing an identifier that holds no hyphen and is no reserved word
/// leaves it unchanged.
pub proof fn ident_keeps_legal_names(s: Seq<char>)
    requires
        !s.contains('-'),
        !is_keyword_spec(s),
    ensures
        ident_spec(s) == s,
{
    assert(replace_hyphens(s) =~= s);
}

/// Sanitizing a reserved word gives a different name, namely the word with
/// a trailing underscore.
pub proof fn ident_changes_keywords(s: Seq<char>)
    requires
        is_keyword_spec(s),
    ensures
        ident_spec(s) != s,
        ident_spec(s) == s + "_"@,
{
    reveal_strlit("_");
    assert(replace_hyphens(s) =~= s) by {
        assert forall|j: int| 0 <= j < s.len() implies s[j] != '-' by {
            reveal_strlit("False");
            reveal_strlit("await");
            reveal_strlit("else");
            reveal_strlit("import");
            reveal_strlit("pass");
            reveal_strlit("None");
            reveal_strlit("break");
            reveal_strlit("except");
            reveal_strlit("in");
            reveal_strlit("raise");
            reveal_strlit("True");
            reveal_strlit("class");
            reveal_strlit("finally");
            reveal_strlit("is");
            reveal_strlit("return");
            reveal_strlit("and");
            reveal_strlit("continue");
            reveal_strlit("for");
            reveal_strlit("lambda");
            reveal_strlit("try");
            reveal_strlit("as");
            reveal_strlit("def");
            reveal_strlit("from");
            reveal_strlit("nonlocal");
            reveal_strlit("while");
            reveal_strlit("assert");
            reveal_strlit("del");
            reveal_strlit("global");
            reveal_strlit("not");
            reveal_strlit("with");
            reveal_strlit("async");
            reveal_strlit("elif");
            reveal_strlit("if");
            reveal_strlit("or");
            reveal_strlit("yield");
        }
    }
    assert((s + "_"@).len() == s.len() + 1);
}

} // verus!
