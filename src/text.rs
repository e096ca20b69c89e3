//! Character-level operations on names.
use vstd::prelude::*;

verus! {

/// What `char::to_uppercase` yields for a character.
pub uninterp spec fn upper_of(c: char) -> Seq<char>;

/// Relies on std's `char::to_uppercase`: the upper-case form of a character
/// is a function of the character alone.
#[verifier::external_body]
fn upper_case(c: char) -> (r: String)
    ensures
        r@ == upper_of(c),
{
    c.to_uppercase().collect()
}

/// Relies on std's `String::push`: appends one character.
#[verifier::external_body]
pub(crate) fn push_char(s: &mut String, c: char)
    ensures
        final(s)@ == old(s)@.push(c),
{
    s.push(c)
}

/// Appends every character of `t` to `s`.
pub(crate) fn push_str(s: &mut String, t: &str)
    ensures
        final(s)@ == old(s)@ + t@,
{
    let n = t.unicode_len();
    let mut i: usize = 0;
    while i < n
        invariant
            n == t@.len(),
            0 <= i <= n,
            s@ == old(s)@ + t@.subrange(0, i as int),
        decreases n - i,
    {
        let c = t.get_char(i);
        push_char(s, c);
        assert(t@.subrange(0, i + 1) =~= t@.subrange(0, i as int).push(c));
        i += 1;
    }
    assert(t@.subrange(0, n as int) =~= t@);
}

/// A new string holding the characters of `t`.
pub(crate) fn owned(t: &str) -> (r: String)
    ensures
        r@ == t@,
{
    let mut s = String::new();
    push_str(&mut s, t);
    s
}

/// Whether two strings hold the same characters.
pub fn same_text(a: &str, b: &str) -> (r: bool)
    ensures
        r == (a@ == b@),
{
    let n = a.unicode_len();
    if n != b.unicode_len() {
        return false;
    }
    let mut i: usize = 0;
    while i < n
        invariant
            n == a@.len(),
            n == b@.len(),
            0 <= i <= n,
            a@.subrange(0, i as int) == b@.subrange(0, i as int),
        decreases n - i,
    {
        if a.get_char(i) != b.get_char(i) {
            return false;
        }
        assert(a@.subrange(0, i + 1) =~= a@.subrange(0, i as int).push(a@[i as int]));
        assert(b@.subrange(0, i + 1) =~= b@.subrange(0, i as int).push(b@[i as int]));
        i += 1;
    }
    assert(a@ =~= a@.subrange(0, n as int));
    assert(b@ =~= b@.subrange(0, n as int));
    true
}

/// A name with the raw-identifier prefix `r#` taken off, if it has one.
pub open spec fn unraw(s: Seq<char>) -> Seq<char> {
    if s.len() >= 2 && s[0] == 'r' && s[1] == '#' {
        s.subrange(2, s.len() as int)
    } else {
        s
    }
}

/// The upper-camel-case form of a snake-case tail: each `_` dropped, and the
/// character after it (or the first one, where `start` holds) upper-cased.
pub open spec fn camel_from(s: Seq<char>, start: bool) -> Seq<char>
    decreases s.len(),
{
    if s.len() == 0 {
        Seq::empty()
    } else if s[0] == '_' {
        camel_from(s.drop_first(), true)
    } else if start {
        upper_of(s[0]) + camel_from(s.drop_first(), false)
    } else {
        seq![s[0]] + camel_from(s.drop_first(), false)
    }
}

/// The upper-camel-case form of a snake-case name.
pub open spec fn pascal_of(s: Seq<char>) -> Seq<char> {
    camel_from(unraw(s), true)
}

/// Where the characters of a name start once any `r#` prefix is skipped.
fn unraw_start(s: &str) -> (r: usize)
    ensures
        s@.subrange(r as int, s@.len() as int) == unraw(s@),
        r <= s@.len(),
{
    let n = s.unicode_len();
    if n >= 2 && s.get_char(0) == 'r' && s.get_char(1) == '#' {
        2
    } else {
        assert(s@.subrange(0, s@.len() as int) =~= s@);
        0
    }
}

/// The name without its raw-identifier prefix.
pub fn strip_raw(s: &str) -> (r: String)
    ensures
        r@ == unraw(s@),
{
    let n = s.unicode_len();
    let start = unraw_start(s);
    let mut out = String::new();
    let mut i: usize = start;
    while i < n
        invariant
            n == s@.len(),
            start <= i <= n,
            out@ == s@.subrange(start as int, i as int),
        decreases n - i,
    {
        let c = s.get_char(i);
        push_char(&mut out, c);
        assert(s@.subrange(start as int, i + 1) =~= s@.subrange(start as int, i as int).push(c));
        i += 1;
    }
    out
}

/// The form given for the character at `i`: `ups[i]` where there is one,
/// else the character itself.
pub open spec fn upper_at(ups: Seq<Seq<char>>, i: int, c: char) -> Seq<char> {
    if 0 <= i < ups.len() {
        ups[i]
    } else {
        seq![c]
    }
}

/// The upper-camel-case form of `s`, where the upper-case form of the
/// character `s[i]` is `upper_at(ups, off + i, s[i])`.
pub open spec fn camel_with(s: Seq<char>, ups: Seq<Seq<char>>, off: int, start: bool) -> Seq<char>
    decreases s.len(),
{
    if s.len() == 0 {
        Seq::empty()
    } else if s[0] == '_' {
        camel_with(s.drop_first(), ups, off + 1, true)
    } else if start {
        upper_at(ups, off, s[0]) + camel_with(s.drop_first(), ups, off + 1, false)
    } else {
        seq![s[0]] + camel_with(s.drop_first(), ups, off + 1, false)
    }
}

/// With the true upper-case forms given, the two readings agree.
pub proof fn lemma_camel_with_upper(s: Seq<char>, ups: Seq<Seq<char>>, off: int, start: bool)
    requires
        0 <= off,
        off + s.len() <= ups.len(),
        forall|i: int| 0 <= i < s.len() ==> #[trigger] ups[off + i] == upper_of(s[i]),
    ensures
        camel_with(s, ups, off, start) == camel_from(s, start),
    decreases s.len(),
{
    if s.len() > 0 {
        let s1 = s.drop_first();
        assert forall|i: int| 0 <= i < s1.len() implies #[trigger] ups[off + 1 + i] == upper_of(s1[i]) by {
            assert(ups[off + (i + 1)] == upper_of(s[i + 1]));
        }
        assert(ups[off + 0] == upper_of(s[0]));
        lemma_camel_with_upper(s1, ups, off + 1, true);
        lemma_camel_with_upper(s1, ups, off + 1, false);
    }
}

/// Joins the parts of a snake-case name (without raw-identifier prefix) in
/// upper camel case: each `_` dropped, and the first character of each part
/// replaced by its upper-case form `uppers[i]` (the character itself where
/// `uppers` has no entry for its position).
pub fn camel_case_with(name: &str, uppers: &Vec<String>) -> (r: String)
    ensures
        r@ == camel_with(name@, uppers@.map_values(|u: String| u@), 0, true),
{
    let ghost ups = uppers@.map_values(|u: String| u@);
    let n = name.unicode_len();
    assert(name@.subrange(0, n as int) =~= name@);
    let mut out = String::new();
    let mut at_start = true;
    let mut i: usize = 0;
    while i < n
        invariant
            n == name@.len(),
            0 <= i <= n,
            ups == uppers@.map_values(|u: String| u@),
            camel_with(name@, ups, 0, true) == out@ + camel_with(
                name@.subrange(i as int, n as int),
                ups,
                i as int,
                at_start,
            ),
        decreases n - i,
    {
        let c = name.get_char(i);
        let ghost rest = name@.subrange(i as int, n as int);
        assert(rest.drop_first() =~= name@.subrange(i + 1, n as int));
        assert(rest[0] == c);
        if c == '_' {
            at_start = true;
        } else if at_start {
            if i < uppers.len() {
                assert(upper_at(ups, i as int, c) == uppers@[i as int]@);
                push_str(&mut out, uppers[i].as_str());
            } else {
                push_char(&mut out, c);
            }
            at_start = false;
        } else {
            push_char(&mut out, c);
        }
        i += 1;
    }
    assert(name@.subrange(n as int, n as int) =~= Seq::<char>::empty());
    out
}

/// Converts a snake-case name to upper camel case (`foo_bar` to `FooBar`),
/// ignoring a raw-identifier prefix.
pub fn to_pascal_case(name: &str) -> (r: String)
    ensures
        r@ == pascal_of(name@),
{
    let bare = strip_raw(name);
    let n = bare.unicode_len();
    let mut uppers: Vec<String> = Vec::new();
    let mut i: usize = 0;
    while i < n
        invariant
            n == bare@.len(),
            0 <= i <= n,
            uppers.len() == i,
            forall|j: int| 0 <= j < i ==> (#[trigger] uppers@[j])@ == upper_of(bare@[j]),
        decreases n - i,
    {
        uppers.push(upper_case(bare.get_char(i)));
        i += 1;
    }
    proof {
        let ups = uppers@.map_values(|u: String| u@);
        assert forall|j: int| 0 <= j < bare@.len() implies #[trigger] ups[0 + j] == upper_of(bare@[j]) by {
            assert(ups[j] == uppers@[j]@);
        }
        lemma_camel_with_upper(bare@, ups, 0, true);
    }
    camel_case_with(bare.as_str(), &uppers)
}

/// The lines joined, each after a line break.
pub open spec fn each_on_new_line(lines: Seq<Seq<char>>) -> Seq<char>
    decreases lines.len(),
{
    if lines.len() == 0 {
        Seq::empty()
    } else {
        each_on_new_line(lines.drop_last()) + seq!['\n'] + lines.last()
    }
}

/// A method's documentation: the generated text, then, where the field has
/// doc lines, a "Field Documentation" heading followed by those lines.
pub open spec fn method_doc(auto_doc: Seq<char>, field_docs: Seq<Seq<char>>) -> Seq<char> {
    if field_docs.len() == 0 {
        auto_doc
    } else {
        auto_doc + "\n\n## Field Documentation"@ + each_on_new_line(field_docs)
    }
}

/// Formats a method's documentation, with the field's own doc lines
/// appended under a heading where it has any.
pub fn format_method_doc(auto_doc: &str, field_docs: &Vec<String>) -> (r: String)
    ensures
        r@ == method_doc(auto_doc@, field_docs@.map_values(|d: String| d@)),
{
    let ghost docs = field_docs@.map_values(|d: String| d@);
    let mut full = owned(auto_doc);
    if field_docs.len() == 0 {
        return full;
    }
    push_str(&mut full, "\n\n## Field Documentation");
    let mut i: usize = 0;
    while i < field_docs.len()
        invariant
            0 <= i <= field_docs.len(),
            docs == field_docs@.map_values(|d: String| d@),
            full@ == auto_doc@ + "\n\n## Field Documentation"@ + each_on_new_line(docs.take(i as int)),
        decreases field_docs.len() - i,
    {
        assert(docs.take(i + 1).drop_last() =~= docs.take(i as int));
        push_char(&mut full, '\n');
        push_str(&mut full, field_docs[i].as_str());
        i += 1;
    }
    assert(docs.take(field_docs.len() as int) =~= docs);
    full
}

} // verus!
