//! Sticker names: how user-typed names become file names.
use vstd::prelude::*;
use crate::text::{chars_of, push_char, string_of};
use vstd::string::StringExecFns;

verus! {

/// Whether a character is alphabetic or numeric in Unicode (`char::is_alphanumeric`).
pub uninterp spec fn alphanumeric(c: char) -> bool;

/// Whether a character has the Unicode `White_Space` property (`char::is_whitespace`).
pub uninterp spec fn white_space(c: char) -> bool;

/// `char::is_alphanumeric`: whether `c` is alphabetic or numeric.
#[verifier::external_body]
fn is_alphanumeric(c: char) -> (r: bool)
    ensures
        r == alphanumeric(c),
{
    c.is_alphanumeric()
}

/// `char::is_whitespace`: whether `c` has the `White_Space` property.
#[verifier::external_body]
fn is_white_space(c: char) -> (r: bool)
    ensures
        r == white_space(c),
{
    c.is_whitespace()
}

/// Characters allowed in an edited sticker's file name.
pub open spec fn edit_allowed(c: char) -> bool {
    alphanumeric(c) || c == '-' || c == '_'
}

/// An edited name with every character that is not allowed replaced by `_`.
pub open spec fn edit_safe_name(name: Seq<char>) -> Seq<char> {
    name.map_values(|c: char| if edit_allowed(c) { c } else { '_' })
}

/// The file name stem for an edited sticker: letters, digits, `-` and `_` stay,
/// every other character becomes `_`.
pub fn sanitize_edit_name(name: &str) -> (r: String)
    ensures
        r@ == edit_safe_name(name@),
{
    let cs = chars_of(name);
    let mut out = String::new();
    let mut i: usize = 0;
    while i < cs.len()
        invariant
            cs@ == name@,
            i <= cs@.len(),
            out@ == edit_safe_name(name@.subrange(0, i as int)),
        decreases cs.len() - i,
    {
        let c = cs[i];
        let keep = is_alphanumeric(c) || c == '-' || c == '_';
        push_char(&mut out, if keep { c } else { '_' });
        proof {
            assert(edit_safe_name(name@.subrange(0, i + 1)) =~= edit_safe_name(
                name@.subrange(0, i as int),
            ).push(if edit_allowed(c) { c } else { '_' }));
        }
        i = i + 1;
    }
    proof {
        assert(name@.subrange(0, cs@.len() as int) =~= name@);
    }
    out
}

/// Sanitizing an edited name keeps its length, leaves only allowed characters,
/// and changes nothing when applied a second time.
pub proof fn law_edit_name_sanitizing_is_idempotent(name: Seq<char>)
    ensures
        edit_safe_name(name).len() == name.len(),
        forall|i: int|
            0 <= i < name.len() ==> edit_allowed(#[trigger] edit_safe_name(name)[i]),
        edit_safe_name(edit_safe_name(name)) == edit_safe_name(name),
{
    assert(edit_safe_name(edit_safe_name(name)) =~= edit_safe_name(name));
}

/// Sanitizing an edited name keeps each letter, digit, `-` and `_` where it
/// stands and puts `_` in place of every other character.
pub proof fn law_edit_name_keeps_allowed_chars(name: Seq<char>)
    ensures
        edit_safe_name(name).len() == name.len(),
        forall|i: int|
            0 <= i < name.len() ==> #[trigger] edit_safe_name(name)[i] == if alphanumeric(name[i])
                || name[i] == '-' || name[i] == '_' {
                name[i]
            } else {
                '_'
            },
{
}

/// Characters kept in the name of a newly added sticker.
pub open spec fn commit_allowed(c: char) -> bool {
    alphanumeric(c) || c == '-' || c == '_' || c == ' '
}

/// The characters of `name` that are allowed in a new sticker's name, in order.
pub open spec fn commit_filtered(name: Seq<char>) -> Seq<char>
    decreases name.len(),
{
    if name.len() == 0 {
        Seq::empty()
    } else if commit_allowed(name.last()) {
        commit_filtered(name.drop_last()).push(name.last())
    } else {
        commit_filtered(name.drop_last())
    }
}

/// A sequence without its leading whitespace.
pub open spec fn trim_start(s: Seq<char>) -> Seq<char>
    decreases s.len(),
{
    if s.len() > 0 && white_space(s[0]) {
        trim_start(s.drop_first())
    } else {
        s
    }
}

/// A sequence without its trailing whitespace.
pub open spec fn trim_end(s: Seq<char>) -> Seq<char>
    decreases s.len(),
{
    if s.len() > 0 && white_space(s.last()) {
        trim_end(s.drop_last())
    } else {
        s
    }
}

/// A sequence without leading or trailing whitespace (as `str::trim` gives it).
pub open spec fn trimmed(s: Seq<char>) -> Seq<char> {
    trim_end(trim_start(s))
}

/// Removes leading and trailing whitespace.
pub fn trim_chars(s: &Vec<char>) -> (r: Vec<char>)
    ensures
        r@ == trimmed(s@),
{
    let n = s.len();
    let mut start: usize = 0;
    assert(s@.subrange(0, n as int) =~= s@);
    while start < n && is_white_space(s[start])
        invariant
            n == s@.len(),
            start <= n,
            trim_start(s@) == trim_start(s@.subrange(start as int, n as int)),
        decreases n - start,
    {
        proof {
            let t = s@.subrange(start as int, n as int);
            assert(t.drop_first() =~= s@.subrange(start + 1, n as int));
        }
        start = start + 1;
    }
    let ghost front = s@.subrange(start as int, n as int);
    assert(trim_start(s@) == front);
    let mut end: usize = n;
    while end > start && is_white_space(s[end - 1])
        invariant
            n == s@.len(),
            start <= end <= n,
            front == s@.subrange(start as int, n as int),
            trim_end(front) == trim_end(s@.subrange(start as int, end as int)),
        decreases end - start,
    {
        proof {
            let t = s@.subrange(start as int, end as int);
            assert(t.drop_last() =~= s@.subrange(start as int, end - 1));
        }
        end = end - 1;
    }
    let mut out: Vec<char> = Vec::new();
    let mut i: usize = start;
    while i < end
        invariant
            start <= i <= end <= n,
            n == s@.len(),
            out@ == s@.subrange(start as int, i as int),
        decreases end - i,
    {
        out.push(s[i]);
        i = i + 1;
    }
    out
}

/// The name of a newly added sticker: the allowed characters of the typed name,
/// without surrounding whitespace.
pub open spec fn commit_safe_name(name: Seq<char>) -> Seq<char> {
    trimmed(commit_filtered(name))
}

/// The file name of a newly added sticker with extension `ext`, or the error the
/// user sees when nothing of the typed name is left.
pub fn commit_file_name(name: &str, ext: &str) -> (r: Result<String, String>)
    ensures
        commit_safe_name(name@).len() == 0 <==> r is Err,
        r matches Ok(f) ==> f@ == commit_safe_name(name@) + "."@ + ext@,
        r matches Err(e) ==> e@ == "Invalid sticker name"@,
{
    let cs = chars_of(name);
    let mut kept: Vec<char> = Vec::new();
    let mut i: usize = 0;
    while i < cs.len()
        invariant
            cs@ == name@,
            i <= cs@.len(),
            kept@ == commit_filtered(name@.subrange(0, i as int)),
        decreases cs.len() - i,
    {
        let c = cs[i];
        proof {
            assert(name@.subrange(0, i + 1).drop_last() =~= name@.subrange(0, i as int));
        }
        if is_alphanumeric(c) || c == '-' || c == '_' || c == ' ' {
            kept.push(c);
        }
        i = i + 1;
    }
    proof {
        assert(name@.subrange(0, cs@.len() as int) =~= name@);
    }
    let safe = trim_chars(&kept);
    if safe.len() == 0 {
        return Err(String::from_str("Invalid sticker name"));
    }
    let mut f = string_of(&safe);
    f.append(".");
    f.append(ext);
    Ok(f)
}

/// Every character of a new sticker's name is allowed.
pub proof fn law_commit_name_only_allowed(name: Seq<char>)
    ensures
        forall|i: int|
            0 <= i < commit_safe_name(name).len() ==> commit_allowed(
                #[trigger] commit_safe_name(name)[i],
            ),
{
    lemma_filtered_allowed(name);
    lemma_trim_start_suffix(commit_filtered(name));
    lemma_trim_end_prefix(trim_start(commit_filtered(name)));
    let f = commit_filtered(name);
    let a = trim_start(f);
    let b = trim_end(a);
    assert forall|i: int| 0 <= i < b.len() implies commit_allowed(#[trigger] b[i]) by {
        assert(b[i] == a[i]);
        assert(a[i] == f[f.len() - a.len() + i]);
    }
}

/// A new sticker's name keeps exactly the typed characters that are letters or
/// digits, `-`, `_` or a space, in their order: the filter drops every other
/// character and nothing else.
pub proof fn law_commit_keeps_allowed_chars(name: Seq<char>)
    ensures
        commit_filtered(name) == name.filter(
            |c: char| alphanumeric(c) || c == '-' || c == '_' || c == ' ',
        ),
    decreases name.len(),
{
    reveal(Seq::filter);
    if name.len() > 0 {
        law_commit_keeps_allowed_chars(name.drop_last());
    }
}

/// The characters of a sequence that pass the filter, when every one does, are
/// the whole sequence.
proof fn lemma_filtered_all_kept(name: Seq<char>)
    requires
        forall|i: int|
            0 <= i < name.len() ==> alphanumeric(#[trigger] name[i]) || name[i] == '-' || name[i]
                == '_' || name[i] == ' ',
    ensures
        commit_filtered(name) == name,
    decreases name.len(),
{
    if name.len() > 0 {
        let d = name.drop_last();
        assert forall|i: int| 0 <= i < d.len() implies alphanumeric(#[trigger] d[i]) || d[i] == '-'
            || d[i] == '_' || d[i] == ' ' by {
            assert(d[i] == name[i]);
        }
        lemma_filtered_all_kept(d);
        assert(name.last() == name[name.len() - 1]);
        assert(d.push(name.last()) =~= name);
    }
}

/// A typed name made only of letters, digits, `-`, `_` and spaces, with no
/// whitespace at either end, is kept as it is (`happy-cat` stays `happy-cat`).
pub proof fn law_clean_name_is_kept(name: Seq<char>)
    requires
        name.len() > 0,
        forall|i: int|
            0 <= i < name.len() ==> alphanumeric(#[trigger] name[i]) || name[i] == '-' || name[i]
                == '_' || name[i] == ' ',
        !white_space(name[0]),
        !white_space(name[name.len() - 1]),
    ensures
        commit_safe_name(name) == name,
{
    lemma_filtered_all_kept(name);
    assert(trim_start(name) == name);
    assert(name.last() == name[name.len() - 1]);
    assert(trim_end(name) == name);
}

/// The filtered name holds only allowed characters.
proof fn lemma_filtered_allowed(name: Seq<char>)
    ensures
        forall|i: int|
            0 <= i < commit_filtered(name).len() ==> commit_allowed(#[trigger] commit_filtered(name)[i]),
    decreases name.len(),
{
    if name.len() > 0 {
        lemma_filtered_allowed(name.drop_last());
        let rest = commit_filtered(name.drop_last());
        let all = commit_filtered(name);
        assert forall|i: int| 0 <= i < all.len() implies commit_allowed(#[trigger] all[i]) by {
            if i < rest.len() {
                assert(all[i] == rest[i]);
            }
        }
    }
}

/// Trimming the front leaves a suffix.
proof fn lemma_trim_start_suffix(s: Seq<char>)
    ensures
        trim_start(s).len() <= s.len(),
        forall|i: int|
            0 <= i < trim_start(s).len() ==> #[trigger] trim_start(s)[i] == s[s.len() - trim_start(
                s,
            ).len() + i],
    decreases s.len(),
{
    if s.len() > 0 && white_space(s[0]) {
        lemma_trim_start_suffix(s.drop_first());
    }
}

/// Trimming the end leaves a prefix.
proof fn lemma_trim_end_prefix(s: Seq<char>)
    ensures
        trim_end(s).len() <= s.len(),
        forall|i: int| 0 <= i < trim_end(s).len() ==> #[trigger] trim_end(s)[i] == s[i],
    decreases s.len(),
{
    if s.len() > 0 && white_space(s.last()) {
        lemma_trim_end_prefix(s.drop_last());
    }
}

/// The file name of a renamed sticker: the new name, a dot, and the old extension.
pub fn renamed_file_name(new_name: &str, ext: &str) -> (r: String)
    ensures
        r@ == new_name@ + "."@ + ext@,
{
    crate::text::join3(new_name, ".", ext)
}

} // verus!
