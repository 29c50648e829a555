//! Naming rules of the generator: which file names count as GUI markup,
//! what the bare name of such a file is, and how a widget class name is
//! turned into the identifier of the toolkit's widget type.

use vstd::prelude::*;
use vstd::string::StrSliceExecFns;
use vstd::string::StringExecFns;

verus! {

/// `.glade` starts at position `j` of `s`.
pub open spec fn glade_at(s: Seq<char>, j: int) -> bool {
    &&& 0 <= j
    &&& j + 6 <= s.len()
    &&& s[j] == '.'
    &&& s[j + 1] == 'g'
    &&& s[j + 2] == 'l'
    &&& s[j + 3] == 'a'
    &&& s[j + 4] == 'd'
    &&& s[j + 5] == 'e'
}

/// `.ui` starts at position `i` of `s`.
pub open spec fn ui_at(s: Seq<char>, i: int) -> bool {
    &&& 0 <= i
    &&& i + 3 <= s.len()
    &&& s[i] == '.'
    &&& s[i + 1] == 'u'
    &&& s[i + 2] == 'i'
}

/// What stripping the markup extension from a file name yields: the name
/// with a final `.glade` or `.ui` removed; a name that ends in neither is
/// not a markup file.
pub open spec fn spec_remove_ui_extension(s: Seq<char>) -> Option<Seq<char>> {
    if glade_at(s, s.len() - 6) {
        Some(s.subrange(0, s.len() - 6))
    } else if ui_at(s, s.len() - 3) {
        Some(s.subrange(0, s.len() - 3))
    } else {
        None
    }
}

/// Remove the markup extension of a file name, and return its bare name;
/// `None` for a file whose name does not end in a markup extension.
pub fn remove_ui_extension(file_name: &str) -> (r: Option<String>)
    ensures
        r.deep_view() == spec_remove_ui_extension(file_name@),
{
    let n = file_name.unicode_len();
    if n >= 6 && file_name.get_char(n - 6) == '.' && file_name.get_char(n - 5) == 'g'
        && file_name.get_char(n - 4) == 'l' && file_name.get_char(n - 3) == 'a'
        && file_name.get_char(n - 2) == 'd' && file_name.get_char(n - 1) == 'e' {
        proof {
            assert(glade_at(file_name@, file_name@.len() - 6));
        }
        let stem = file_name.substring_char(0, n - 6);
        Some(String::from_str(stem))
    } else if n >= 3 && file_name.get_char(n - 3) == '.' && file_name.get_char(n - 2) == 'u'
        && file_name.get_char(n - 1) == 'i' {
        proof {
            assert(!glade_at(file_name@, file_name@.len() - 6));
            assert(ui_at(file_name@, file_name@.len() - 3));
        }
        let stem = file_name.substring_char(0, n - 3);
        Some(String::from_str(stem))
    } else {
        proof {
            assert(!glade_at(file_name@, file_name@.len() - 6));
            assert(!ui_at(file_name@, file_name@.len() - 3));
        }
        None
    }
}

/// Stripping is a left inverse of appending a markup extension: a bare name
/// with `.ui` or `.glade` appended strips back to the bare name, whatever
/// the bare name holds.
pub proof fn lemma_strip_appended_extension(n: Seq<char>)
    ensures
        spec_remove_ui_extension(n + ".ui"@) == Some(n),
        spec_remove_ui_extension(n + ".glade"@) == Some(n),
{
    reveal_strlit(".ui");
    reveal_strlit(".glade");
    let u = n + ".ui"@;
    assert(u[u.len() - 1] == 'i');
    assert(!glade_at(u, u.len() - 6));
    assert(ui_at(u, u.len() - 3));
    assert(u.subrange(0, u.len() - 3) =~= n);
    let g = n + ".glade"@;
    assert(glade_at(g, g.len() - 6));
    assert(g.subrange(0, g.len() - 6) =~= n);
}

/// What the Pascal-case conversion of the case-convention crate returns for
/// a given sequence of characters.
pub uninterp spec fn pascal_of(s: Seq<char>) -> Seq<char>;

/// Relies on convert_case's `Casing::to_case` with `Case::Pascal`: the
/// conversion is a pure function of the characters of its input.
#[verifier::external_body]
fn pascal_case(s: &str) -> (r: String)
    ensures
        r@ == pascal_of(s@),
{
    convert_case::Casing::to_case(&s, convert_case::Case::Pascal)
}

/// The name of the struct generated for a markup file: the bare file name
/// converted to Pascal case; `None` for a file that is not GUI markup.
pub open spec fn spec_bind_struct_name(s: Seq<char>) -> Option<Seq<char>> {
    match spec_remove_ui_extension(s) {
        Some(stem) => Some(pascal_of(stem)),
        None => None,
    }
}

pub fn bind_struct_name(file_name: &str) -> (r: Option<String>)
    ensures
        r.deep_view() == spec_bind_struct_name(file_name@),
{
    match remove_ui_extension(file_name) {
        Some(stem) => Some(pascal_case(stem.as_str())),
        None => None,
    }
}

/// Whether two string slices hold the same characters.
pub fn str_eq(a: &str, b: &str) -> (r: bool)
    ensures
        r == (a@ == b@),
{
    let na = a.unicode_len();
    let nb = b.unicode_len();
    if na != nb {
        return false;
    }
    let mut i: usize = 0;
    while i < na
        invariant
            na == a@.len(),
            nb == b@.len(),
            na == nb,
            i <= na,
            forall|k: int| 0 <= k < i ==> a@[k] == b@[k],
        decreases na - i,
    {
        if a.get_char(i) != b.get_char(i) {
            return false;
        }
        i = i + 1;
    }
    proof {
        assert(a@ =~= b@);
    }
    true
}

/// The marker `Gtk` starts at position `i` of `s`.
pub open spec fn gtk_at(s: Seq<char>, i: int) -> bool {
    &&& 0 <= i
    &&& i + 3 <= s.len()
    &&& s[i] == 'G'
    &&& s[i + 1] == 't'
    &&& s[i + 2] == 'k'
}

/// `s` with every occurrence of `Gtk` removed, scanning left to right over
/// the occurrences that remain (so overlapping occurrences are not re-read).
pub open spec fn strip_gtk(s: Seq<char>) -> Seq<char>
    decreases s.len(),
{
    if s.len() == 0 {
        s
    } else if gtk_at(s, 0) {
        strip_gtk(s.skip(3))
    } else {
        seq![s[0]] + strip_gtk(s.skip(1))
    }
}

/// The identifier of the toolkit type for a widget class name: the class
/// name with every `Gtk` marker removed.
pub fn class_ident(class: &str) -> (r: String)
    ensures
        r@ == strip_gtk(class@),
{
    let n = class.unicode_len();
    let mut out = String::new();
    let mut i: usize = 0;
    proof {
        assert(class@.skip(0) =~= class@);
        assert(out@ + strip_gtk(class@) =~= strip_gtk(class@));
    }
    while i < n
        invariant
            n == class@.len(),
            i <= n,
            out@ + strip_gtk(class@.skip(i as int)) == strip_gtk(class@),
        decreases n - i,
    {
        if n - i >= 3 && class.get_char(i) == 'G' && class.get_char(i + 1) == 't'
            && class.get_char(i + 2) == 'k' {
            proof {
                assert(gtk_at(class@.skip(i as int), 0));
                assert(class@.skip(i as int).skip(3) =~= class@.skip(i as int + 3));
            }
            i = i + 3;
        } else {
            let c = class.substring_char(i, i + 1);
            out.append(c);
            proof {
                assert(!gtk_at(class@.skip(i as int), 0));
                assert(class@.skip(i as int).skip(1) =~= class@.skip(i as int + 1));
                assert(c@ =~= seq![class@.skip(i as int)[0]]);
                assert(out@ + strip_gtk(class@.skip(i as int + 1)) =~= strip_gtk(class@));
            }
            i = i + 1;
        }
    }
    proof {
        assert(class@.skip(n as int) =~= Seq::<char>::empty());
    }
    out
}

} // verus!
