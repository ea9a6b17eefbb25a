//! Turning a gallery title into a name that can stand as a directory name,
//! by deleting the characters that file systems refuse.
use vstd::prelude::*;

verus! {

/// The characters that have a meaning of their own in regex syntax and may
/// therefore be escaped with a backslash.
pub open spec fn is_regex_meta(c: char) -> bool {
    c == '\\' || c == '.' || c == '+' || c == '*' || c == '?' || c == '(' || c == ')' || c == '|'
        || c == '[' || c == ']' || c == '{' || c == '}' || c == '^' || c == '$' || c == '#'
        || c == '&' || c == '-' || c == '~'
}

/// The characters that do not stand for themselves inside a bracketed class.
pub open spec fn is_class_special(c: char) -> bool {
    c == '[' || c == ']' || c == '\\' || c == '-' || c == '&' || c == '~' || c == '^'
}

/// The members of the body of a bracketed class, when every member is a
/// literal character or a backslash followed by a meta character.
pub open spec fn class_body_members(body: Seq<char>) -> Option<Seq<char>>
    decreases body.len(),
{
    if body.len() == 0 {
        Some(seq![])
    } else if body[0] == '\\' {
        if body.len() >= 2 && is_regex_meta(body[1]) {
            match class_body_members(body.subrange(2, body.len() as int)) {
                Some(m) => Some(seq![body[1]] + m),
                None => None,
            }
        } else {
            None
        }
    } else if is_class_special(body[0]) {
        None
    } else {
        match class_body_members(body.drop_first()) {
            Some(m) => Some(seq![body[0]] + m),
            None => None,
        }
    }
}

/// For a pattern of the form `[...]` listing literal characters, the
/// characters it matches; `None` for every other pattern.
pub open spec fn literal_class_members(pattern: Seq<char>) -> Option<Seq<char>> {
    if pattern.len() >= 3 && pattern[0] == '[' && pattern.last() == ']' {
        class_body_members(pattern.subrange(1, pattern.len() - 1))
    } else {
        None
    }
}

/// `text` with every character of `members` replaced by `rep`.
pub open spec fn replace_members(text: Seq<char>, members: Seq<char>, rep: Seq<char>) -> Seq<char>
    decreases text.len(),
{
    if text.len() == 0 {
        seq![]
    } else {
        (if members.contains(text[0]) {
            rep
        } else {
            seq![text[0]]
        }) + replace_members(text.drop_first(), members, rep)
    }
}

/// What compiling `pattern` with `regex::Regex::new` and replacing every
/// match in `text` by `rep` gives (`None` when the pattern does not compile).
pub uninterp spec fn regex_replace_all_result(pattern: Seq<char>, text: Seq<char>, rep: Seq<char>) -> Option<Seq<char>>;

pub open spec fn opt_string_view(r: Option<String>) -> Option<Seq<char>> {
    match r {
        Some(s) => Some(s@),
        None => None,
    }
}

/// Calls `regex::Regex::new(pattern)` and, when it compiles,
/// `Regex::replace_all(text, rep)`. Claimed: the result is the named
/// `regex_replace_all_result` of the three arguments; and, following the
/// regex crate's documented syntax, a short pattern `[...]` (at most 64
/// characters, far below the size limit under which `Regex::new` fails)
/// that lists literal (or backslash-escaped meta) characters compiles and
/// matches exactly those characters one at a time, so with a replacement
/// free of `$` (which alone triggers capture expansion) each of them is
/// replaced by `rep`. Nothing is claimed of longer or other patterns
/// beyond the name: a long enough class can exceed the size limit.
#[verifier::external_body]
fn regex_replace_all(pattern: &str, text: &str, rep: &str) -> (r: Option<String>)
    ensures
        opt_string_view(r) == regex_replace_all_result(pattern@, text@, rep@),
        pattern@.len() <= 64 && literal_class_members(pattern@) is Some && !rep@.contains('$')
            ==> r is Some
            && r->0@ == replace_members(text@, literal_class_members(pattern@)->0, rep@),
{
    match regex::Regex::new(pattern) {
        Ok(re) => Some(re.replace_all(text, rep).into_owned()),
        Err(_) => None,
    }
}

/// The characters that `to_safe_str` deletes: `<`, `>`, `:`, `"`, `/`, `|`,
/// `?` and `*`. (The backslash is not among them.)
pub open spec fn unsafe_chars() -> Seq<char> {
    seq!['<', '>', ':', '"', '/', '|', '?', '*']
}

/// `s` with every character of `members` deleted, the others kept in order.
pub open spec fn remove_chars(s: Seq<char>, members: Seq<char>) -> Seq<char>
    decreases s.len(),
{
    if s.len() == 0 {
        seq![]
    } else if members.contains(s[0]) {
        remove_chars(s.drop_first(), members)
    } else {
        seq![s[0]] + remove_chars(s.drop_first(), members)
    }
}

/// The safe form of a name: the name with the unsafe characters deleted.
pub open spec fn safe_name(s: Seq<char>) -> Seq<char> {
    remove_chars(s, unsafe_chars())
}

proof fn lemma_replace_by_nothing(text: Seq<char>, members: Seq<char>)
    ensures
        replace_members(text, members, seq![]) == remove_chars(text, members),
    decreases text.len(),
{
    if text.len() > 0 {
        lemma_replace_by_nothing(text.drop_first(), members);
        if members.contains(text[0]) {
            assert(seq![] + replace_members(text.drop_first(), members, seq![])
                =~= replace_members(text.drop_first(), members, seq![]));
        }
    }
}

proof fn lemma_unsafe_class_pattern(p: Seq<char>)
    requires
        p == seq!['[', '<', '>', ':', '"', '/', '\\', '|', '?', '*', ']'],
    ensures
        literal_class_members(p) == Some(unsafe_chars()),
{
    let e = Seq::<char>::empty();
    let b9 = seq!['*'];
    assert(b9.drop_first() =~= e);
    assert(class_body_members(e) == Some(e));
    assert(class_body_members(b9) == Some(seq!['*'] + e));
    let b8 = seq!['?', '*'];
    assert(b8.drop_first() =~= b9);
    assert(class_body_members(b8) == Some(seq!['?'] + seq!['*']));
    let b6 = seq!['\\', '|', '?', '*'];
    assert(b6.subrange(2, 4) =~= b8);
    assert(class_body_members(b6) == Some(seq!['|'] + seq!['?', '*']));
    let b5 = seq!['/', '\\', '|', '?', '*'];
    assert(b5.drop_first() =~= b6);
    assert(class_body_members(b5) == Some(seq!['/'] + seq!['|', '?', '*']));
    let b4 = seq!['"', '/', '\\', '|', '?', '*'];
    assert(b4.drop_first() =~= b5);
    assert(class_body_members(b4) == Some(seq!['"'] + seq!['/', '|', '?', '*']));
    let b3 = seq![':', '"', '/', '\\', '|', '?', '*'];
    assert(b3.drop_first() =~= b4);
    assert(class_body_members(b3) == Some(seq![':'] + seq!['"', '/', '|', '?', '*']));
    let b2 = seq!['>', ':', '"', '/', '\\', '|', '?', '*'];
    assert(b2.drop_first() =~= b3);
    assert(class_body_members(b2) == Some(seq!['>'] + seq![':', '"', '/', '|', '?', '*']));
    let b1 = seq!['<', '>', ':', '"', '/', '\\', '|', '?', '*'];
    assert(b1.drop_first() =~= b2);
    assert(class_body_members(b1) == Some(seq!['<'] + seq!['>', ':', '"', '/', '|', '?', '*']));
    assert(p.subrange(1, p.len() - 1) =~= b1);
    assert(seq!['<'] + seq!['>', ':', '"', '/', '|', '?', '*'] =~= unsafe_chars());
}

/// Deletes the characters `<>:"/|?*` from `path` with the regex
/// `[<>:"/\|?*]`, as the crawler does before using a title as a directory name.
pub fn to_safe_str(path: &str) -> (r: String)
    ensures
        r@ == safe_name(path@),
{
    let pattern = "[<>:\"/\\|?*]";
    let nothing = "";
    proof {
        reveal_strlit("[<>:\"/\\|?*]");
        reveal_strlit("");
        assert(pattern@ =~= seq!['[', '<', '>', ':', '"', '/', '\\', '|', '?', '*', ']']);
        lemma_unsafe_class_pattern(pattern@);
        assert(!nothing@.contains('$'));
        lemma_replace_by_nothing(path@, unsafe_chars());
        assert(nothing@ =~= Seq::<char>::empty());
    }
    let r = regex_replace_all(pattern, path, nothing);
    match r {
        Some(s) => s,
        None => {
            proof {
                assert(false);
            }
            String::new()
        },
    }
}

// ----------------------------------------------------------------------------
// Laws of the safe form
// ----------------------------------------------------------------------------

/// A character survives deletion exactly when it is in `s` and not among the
/// deleted characters.
pub proof fn lemma_remove_chars_contains(s: Seq<char>, members: Seq<char>, c: char)
    ensures
        remove_chars(s, members).contains(c) <==> (s.contains(c) && !members.contains(c)),
    decreases s.len(),
{
    if s.len() > 0 {
        lemma_remove_chars_contains(s.drop_first(), members, c);
        let t = s.drop_first();
        assert(s =~= seq![s[0]] + t);
        if s.contains(c) && s[0] != c {
            let i = choose|i: int| 0 <= i < s.len() && s[i] == c;
            assert(t[i - 1] == c);
        }
        if t.contains(c) {
            let i = choose|i: int| 0 <= i < t.len() && t[i] == c;
            assert(s[i + 1] == c);
        }
        if !members.contains(s[0]) {
            let r = remove_chars(t, members);
            let whole = seq![s[0]] + r;
            assert(whole[0] == s[0]);
            if r.contains(c) {
                let i = choose|i: int| 0 <= i < r.len() && r[i] == c;
                assert(whole[i + 1] == c);
            }
            if whole.contains(c) && s[0] != c {
                let i = choose|i: int| 0 <= i < whole.len() && whole[i] == c;
                assert(r[i - 1] == c);
            }
        }
    }
}

/// No character of a safe name is one of the unsafe characters.
pub proof fn lemma_safe_name_is_safe(s: Seq<char>)
    ensures
        forall|i: int| 0 <= i < safe_name(s).len() ==> !unsafe_chars().contains(#[trigger] safe_name(s)[i]),
{
    assert forall|i: int| 0 <= i < safe_name(s).len() implies !unsafe_chars().contains(#[trigger] safe_name(s)[i]) by {
        lemma_remove_chars_contains(s, unsafe_chars(), safe_name(s)[i]);
    }
}

/// A name without unsafe characters is its own safe form.
pub proof fn lemma_remove_chars_keeps_clean(s: Seq<char>, members: Seq<char>)
    requires
        forall|i: int| 0 <= i < s.len() ==> !members.contains(#[trigger] s[i]),
    ensures
        remove_chars(s, members) == s,
    decreases s.len(),
{
    if s.len() > 0 {
        assert forall|i: int| 0 <= i < s.drop_first().len() implies !members.contains(#[trigger] s.drop_first()[i]) by {
            assert(s.drop_first()[i] == s[i + 1]);
        }
        lemma_remove_chars_keeps_clean(s.drop_first(), members);
        assert(!members.contains(s[0]));
        assert(seq![s[0]] + s.drop_first() =~= s);
    }
}

/// Making a name safe twice is the same as making it safe once.
pub proof fn lemma_safe_name_idempotent(s: Seq<char>)
    ensures
        safe_name(safe_name(s)) == safe_name(s),
{
    lemma_safe_name_is_safe(s);
    lemma_remove_chars_keeps_clean(safe_name(s), unsafe_chars());
}

/// A safe name is never longer than the name it comes from.
pub proof fn lemma_remove_chars_shorter(s: Seq<char>, members: Seq<char>)
    ensures
        remove_chars(s, members).len() <= s.len(),
    decreases s.len(),
{
    if s.len() > 0 {
        lemma_remove_chars_shorter(s.drop_first(), members);
    }
}

proof fn lemma_unsafe_chars_are(c: char)
    ensures
        unsafe_chars().contains(c) <==> (c == '<' || c == '>' || c == ':' || c == '"' || c == '/' || c
            == '|' || c == '?' || c == '*'),
{
    let u = unsafe_chars();
    if c == '<' || c == '>' || c == ':' || c == '"' || c == '/' || c == '|' || c == '?' || c == '*' {
        if c == '<' {
            assert(u[0] == c);
        } else if c == '>' {
            assert(u[1] == c);
        } else if c == ':' {
            assert(u[2] == c);
        } else if c == '"' {
            assert(u[3] == c);
        } else if c == '/' {
            assert(u[4] == c);
        } else if c == '|' {
            assert(u[5] == c);
        } else if c == '?' {
            assert(u[6] == c);
        } else {
            assert(u[7] == c);
        }
    }
}

/// The safe form deletes exactly the characters `<`, `>`, `:`, `"`, `/`,
/// `|`, `?` and `*`: a character is in the safe form of `s` exactly when it
/// is in `s` and is none of these.
pub proof fn lemma_safe_name_deletes_exactly(s: Seq<char>, c: char)
    ensures
        safe_name(s).contains(c) <==> (s.contains(c) && c != '<' && c != '>' && c != ':' && c != '"'
            && c != '/' && c != '|' && c != '?' && c != '*'),
{
    lemma_remove_chars_contains(s, unsafe_chars(), c);
    lemma_unsafe_chars_are(c);
}

/// A name holding none of `<`, `>`, `:`, `"`, `/`, `|`, `?`, `*` is its own
/// safe form: nothing else is deleted or changed.
pub proof fn lemma_clean_name_is_kept(s: Seq<char>)
    requires
        forall|i: int|
            0 <= i < s.len() ==> {
                let c = #[trigger] s[i];
                c != '<' && c != '>' && c != ':' && c != '"' && c != '/' && c != '|' && c != '?' && c
                    != '*'
            },
    ensures
        safe_name(s) == s,
{
    assert forall|i: int| 0 <= i < s.len() implies !unsafe_chars().contains(#[trigger] s[i]) by {
        lemma_unsafe_chars_are(s[i]);
    }
    lemma_remove_chars_keeps_clean(s, unsafe_chars());
}

/// The safe form keeps the characters it does not delete in their order:
/// deleting the refused characters from a name followed by another name is
/// the safe form of the first followed by that of the second.
pub proof fn lemma_safe_name_concat(s: Seq<char>, t: Seq<char>)
    ensures
        safe_name(s + t) == safe_name(s) + safe_name(t),
    decreases s.len(),
{
    if s.len() == 0 {
        assert(s + t =~= t);
        assert(safe_name(s) =~= Seq::<char>::empty());
        assert(safe_name(s) + safe_name(t) =~= safe_name(t));
    } else {
        lemma_safe_name_concat(s.drop_first(), t);
        assert((s + t).drop_first() =~= s.drop_first() + t);
        assert((s + t)[0] == s[0]);
        if !unsafe_chars().contains(s[0]) {
            assert(seq![s[0]] + (safe_name(s.drop_first()) + safe_name(t)) =~= (seq![s[0]]
                + safe_name(s.drop_first())) + safe_name(t));
        }
    }
}

} // verus!
