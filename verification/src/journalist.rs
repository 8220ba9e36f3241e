//! Naming journalists: identities, sort names, and the files made for them.
use vstd::prelude::*;
use crate::text::{join_strings, join_with, push_char, strings_view};

verus! {

/// The ASCII lower-case form of an ASCII character.
pub open spec fn ascii_lower_char(c: char) -> char {
    if 'A' <= c && c <= 'Z' {
        ((c as u32) + 32) as char
    } else {
        c
    }
}

pub open spec fn ascii_lowercase_spec(s: Seq<char>) -> Seq<char> {
    s.map_values(|c: char| ascii_lower_char(c))
}

fn lower_char(c: char) -> (r: char)
    ensures
        r == ascii_lower_char(c),
{
    match c {
        'A' => 'a',
        'B' => 'b',
        'C' => 'c',
        'D' => 'd',
        'E' => 'e',
        'F' => 'f',
        'G' => 'g',
        'H' => 'h',
        'I' => 'i',
        'J' => 'j',
        'K' => 'k',
        'L' => 'l',
        'M' => 'm',
        'N' => 'n',
        'O' => 'o',
        'P' => 'p',
        'Q' => 'q',
        'R' => 'r',
        'S' => 's',
        'T' => 't',
        'U' => 'u',
        'V' => 'v',
        'W' => 'w',
        'X' => 'x',
        'Y' => 'y',
        'Z' => 'z',
        _ => c,
    }
}

/// No character of `s` is an upper-case ASCII letter.
pub open spec fn no_ascii_capitals(s: Seq<char>) -> bool {
    forall|i: int| 0 <= i < s.len() ==> !('A' <= #[trigger] s[i] && s[i] <= 'Z')
}

/// Lower-casing moves each upper-case ASCII letter to its lower-case letter,
/// 32 code points on, and leaves every other character as it is.
pub proof fn lemma_ascii_lower_char(c: char)
    ensures
        'A' <= c && c <= 'Z' ==> ascii_lower_char(c) as int == c as int + 32,
        'A' <= c && c <= 'Z' ==> 'a' <= ascii_lower_char(c) && ascii_lower_char(c) <= 'z',
        !('A' <= c && c <= 'Z') ==> ascii_lower_char(c) == c,
        !('A' <= ascii_lower_char(c) && ascii_lower_char(c) <= 'Z'),
{
}

proof fn lemma_lowercase_has_no_capitals(s: Seq<char>)
    ensures
        no_ascii_capitals(ascii_lowercase_spec(s)),
{
    assert forall|i: int| 0 <= i < ascii_lowercase_spec(s).len() implies !('A' <= #[trigger] ascii_lowercase_spec(
        s,
    )[i] && ascii_lowercase_spec(s)[i] <= 'Z') by {
        lemma_ascii_lower_char(s[i]);
    }
}

/// The pieces of `s` between its spaces, in order; `s` with `k` spaces has
/// `k + 1` pieces, some of them possibly empty.
pub open spec fn split_on_space(s: Seq<char>) -> Seq<Seq<char>>
    decreases s.len(),
{
    if s.len() == 0 {
        seq![seq![]]
    } else {
        let parts = split_on_space(s.drop_last());
        if s.last() == ' ' {
            parts.push(seq![])
        } else {
            parts.update(parts.len() - 1, parts.last().push(s.last()))
        }
    }
}

proof fn lemma_split_nonempty(s: Seq<char>)
    ensures
        split_on_space(s).len() >= 1,
    decreases s.len(),
{
    if s.len() > 0 {
        lemma_split_nonempty(s.drop_last());
    }
}

proof fn lemma_split_keeps_no_capitals(s: Seq<char>)
    requires
        no_ascii_capitals(s),
    ensures
        forall|j: int| 0 <= j < split_on_space(s).len() ==> no_ascii_capitals(#[trigger] split_on_space(s)[j]),
    decreases s.len(),
{
    lemma_split_nonempty(s);
    if s.len() > 0 {
        let p = s.drop_last();
        assert(no_ascii_capitals(p)) by {
            assert forall|i: int| 0 <= i < p.len() implies !('A' <= #[trigger] p[i] && p[i] <= 'Z') by {
                assert(p[i] == s[i]);
            }
        }
        lemma_split_keeps_no_capitals(p);
        lemma_split_nonempty(p);
        let parts = split_on_space(p);
        assert(!('A' <= s[s.len() - 1] && s[s.len() - 1] <= 'Z'));
        if s.last() != ' ' {
            let last = parts.last().push(s.last());
            assert(no_ascii_capitals(parts[parts.len() - 1]));
            assert forall|i: int| 0 <= i < last.len() implies !('A' <= #[trigger] last[i] && last[i] <= 'Z') by {
                if i < parts.last().len() {
                    assert(last[i] == parts[parts.len() - 1][i]);
                }
            }
        }
    }
}

proof fn lemma_join_keeps_no_capitals(parts: Seq<Seq<char>>, sep: Seq<char>)
    requires
        no_ascii_capitals(sep),
        forall|j: int| 0 <= j < parts.len() ==> no_ascii_capitals(#[trigger] parts[j]),
    ensures
        no_ascii_capitals(join_with(parts, sep)),
    decreases parts.len(),
{
    if parts.len() == 1 {
        assert(no_ascii_capitals(parts[0]));
    } else if parts.len() > 1 {
        let p = parts.drop_last();
        assert forall|j: int| 0 <= j < p.len() implies no_ascii_capitals(#[trigger] p[j]) by {
            assert(p[j] == parts[j]);
        }
        lemma_join_keeps_no_capitals(p, sep);
        let a = join_with(p, sep);
        let l = parts.last();
        assert(no_ascii_capitals(parts[parts.len() - 1]));
        let r = a + sep + l;
        assert forall|i: int| 0 <= i < r.len() implies !('A' <= #[trigger] r[i] && r[i] <= 'Z') by {
            if i < a.len() {
                assert(r[i] == a[i]);
            } else if i < a.len() + sep.len() {
                assert(r[i] == sep[i - a.len()]);
            } else {
                assert(r[i] == l[i - a.len() - sep.len()]);
            }
        }
    }
}

/// A sort name made from an ASCII display name holds no upper-case letter:
/// every letter of the display name reaches it lower-cased.
pub proof fn lemma_sort_name_has_no_capitals(display_name: Seq<char>)
    ensures
        sort_name_spec(None, display_name) matches Ok(s) ==> no_ascii_capitals(s),
{
    if let Ok(s) = sort_name_spec(None, display_name) {
        let lower = ascii_lowercase_spec(display_name);
        lemma_lowercase_has_no_capitals(display_name);
        lemma_split_keeps_no_capitals(lower);
        let words = split_on_space(lower);
        let rev = words.reverse();
        assert forall|j: int| 0 <= j < rev.len() implies no_ascii_capitals(#[trigger] rev[j]) by {
            assert(rev[j] == words[words.len() - 1 - j]);
        }
        let sp = " "@;
        assert(no_ascii_capitals(sp)) by {
            reveal_strlit(" ");
        }
        lemma_join_keeps_no_capitals(rev, sp);
    }
}

/// Why no sort name could be made from a display name.
#[derive(Clone, Copy, PartialEq, Eq, Structural, Debug)]
pub enum SortNameError {
    /// The display name holds characters outside ASCII.
    NonAscii,
    /// The display name has more than two words.
    TooManyWords,
}

impl SortNameError {
    pub fn message(&self) -> (r: &'static str)
        ensures
            r@ == match self {
                SortNameError::NonAscii => "Non-ascii characters in provided display name. Please manually provide a sort name using the --sort-name flag."@,
                SortNameError::TooManyWords => "More than two words in given display name. Please manually provide a sort name using the --sort-name flag."@,
            },
    {
        match self {
            SortNameError::NonAscii => "Non-ascii characters in provided display name. Please manually provide a sort name using the --sort-name flag.",
            SortNameError::TooManyWords => "More than two words in given display name. Please manually provide a sort name using the --sort-name flag.",
        }
    }
}

/// The sort name for a display name: given one, it is used as it is;
/// otherwise the display name, which must be ASCII and have at most two
/// words, is lower-cased and its words are put in reverse order.
pub open spec fn sort_name_spec(sort_name: Option<Seq<char>>, display_name: Seq<char>) -> Result<Seq<char>, SortNameError> {
    match sort_name {
        Some(s) => Ok(s),
        None => if !vstd::utf8::is_ascii_chars(display_name) {
            Err(SortNameError::NonAscii)
        } else {
            let words = split_on_space(ascii_lowercase_spec(display_name));
            if words.len() > 2 {
                Err(SortNameError::TooManyWords)
            } else {
                Ok(join_with(words.reverse(), " "@))
            }
        },
    }
}

fn ascii_lowercase(s: &str) -> (r: Vec<char>)
    ensures
        r@ == ascii_lowercase_spec(s@),
{
    let n = s.unicode_len();
    let mut r: Vec<char> = Vec::new();
    let mut i: usize = 0;
    while i < n
        invariant
            i <= n,
            n == s@.len(),
            r@ == ascii_lowercase_spec(s@.take(i as int)),
        decreases n - i,
    {
        let c = s.get_char(i);
        r.push(lower_char(c));
        assert(ascii_lowercase_spec(s@.take(i + 1)) =~= ascii_lowercase_spec(s@.take(i as int)).push(
            ascii_lower_char(c),
        ));
        i = i + 1;
    }
    assert(s@.take(n as int) =~= s@);
    r
}

fn split_exec(chars: &Vec<char>) -> (r: Vec<String>)
    ensures
        strings_view(r@) == split_on_space(chars@),
{
    let mut parts: Vec<String> = Vec::new();
    parts.push(String::new());
    assert(strings_view(parts@) =~= split_on_space(chars@.take(0)));
    let mut i: usize = 0;
    while i < chars.len()
        invariant
            i <= chars.len(),
            strings_view(parts@) == split_on_space(chars@.take(i as int)),
        decreases chars.len() - i,
    {
        proof {
            lemma_split_nonempty(chars@.take(i as int));
        }
        assert(chars@.take(i + 1).drop_last() =~= chars@.take(i as int));
        let c = chars[i];
        let ghost before = strings_view(parts@);
        if c == ' ' {
            parts.push(String::new());
            assert(strings_view(parts@) =~= before.push(seq![]));
        } else {
            let last = parts.len() - 1;
            let mut piece = parts[last].clone();
            push_char(&mut piece, c);
            parts.set(last, piece);
            assert(strings_view(parts@) =~= before.update(before.len() - 1, before.last().push(c)));
        }
        i = i + 1;
    }
    assert(chars@.take(chars.len() as int) =~= chars@);
    parts
}

/// The sort name of a journalist, as `sort_name_spec` describes it.
pub fn sort_name_from_display_name(sort_name: Option<String>, display_name: &str) -> (r: Result<
    String,
    SortNameError,
>)
    ensures
        match sort_name_spec(crate::ceremony::opt_view(sort_name), display_name@) {
            Ok(s) => r matches Ok(v) && v@ == s,
            Err(e) => r == Err::<String, SortNameError>(e),
        },
{
    match sort_name {
        Some(s) => Ok(s),
        None => {
            if !display_name.is_ascii() {
                return Err(SortNameError::NonAscii);
            }
            let lower = ascii_lowercase(display_name);
            let words = split_exec(&lower);
            if words.len() > 2 {
                return Err(SortNameError::TooManyWords);
            }
            let mut reversed: Vec<String> = Vec::new();
            let mut i: usize = words.len();
            while i > 0
                invariant
                    i <= words.len(),
                    strings_view(reversed@) =~= strings_view(words@).reverse().take(
                        (words.len() - i) as int,
                    ),
                decreases i,
            {
                i = i - 1;
                let ghost before = reversed@;
                reversed.push(words[i].clone());
                assert(strings_view(reversed@) =~= strings_view(before).push(words@[i as int]@));
            }
            assert(strings_view(words@).reverse().take(words.len() as int) =~= strings_view(
                words@,
            ).reverse());
            Ok(join_strings(&reversed, " "))
        },
    }
}

/// What `str::to_lowercase` gives for a string.
pub uninterp spec fn unicode_lowercase(s: Seq<char>) -> Seq<char>;

/// Lower-cases a string with `str::to_lowercase`, which follows Unicode's
/// `Lowercase` property.  Only that the result is a function of the string
/// is claimed here.
#[verifier::external_body]
pub(crate) fn lowercase(s: &str) -> (r: String)
    ensures
        r@ == unicode_lowercase(s@),
{
    s.to_lowercase()
}

/// `s` with every space replaced by an underscore.
pub open spec fn spaces_to_underscores(s: Seq<char>) -> Seq<char> {
    s.map_values(|c: char| if c == ' ' { '_' } else { c })
}

/// The identity proposed for a new journalist: the one given, or else the
/// display name lower-cased with its spaces turned into underscores.
pub open spec fn default_journalist_id_spec(id: Option<Seq<char>>, display_name: Seq<char>) -> Seq<char> {
    match id {
        Some(i) => i,
        None => spaces_to_underscores(unicode_lowercase(display_name)),
    }
}

/// The identity proposed for a new journalist, before it is validated.
pub fn default_journalist_id(id: Option<String>, display_name: &str) -> (r: String)
    ensures
        r@ == default_journalist_id_spec(crate::ceremony::opt_view(id), display_name@),
{
    match id {
        Some(i) => i,
        None => {
            let lower = lowercase(display_name);
            let s = lower.as_str();
            let n = s.unicode_len();
            let mut r = String::new();
            let mut i: usize = 0;
            while i < n
                invariant
                    i <= n,
                    n == s@.len(),
                    s@ == unicode_lowercase(display_name@),
                    r@ == spaces_to_underscores(s@.take(i as int)),
                decreases n - i,
            {
                let c = s.get_char(i);
                let d = if c == ' ' { '_' } else { c };
                push_char(&mut r, d);
                assert(spaces_to_underscores(s@.take(i + 1)) =~= spaces_to_underscores(s@.take(i as int)).push(d));
                i = i + 1;
            }
            assert(s@.take(n as int) =~= s@);
            r
        },
    }
}

/// The name of the file holding a journalist's deletion form.
pub fn delete_journalist_form_file_name(journalist_id: &str) -> (r: String)
    ensures
        r@ == "delete_"@ + journalist_id@ + ".form.json"@,
{
    let mut r = String::from_str("delete_");
    r.append(journalist_id);
    r.append(".form.json");
    r
}


/// `i` is the last position holding the largest value of `v`.
pub open spec fn is_last_maximum(v: Seq<i64>, i: int) -> bool {
    &&& 0 <= i < v.len()
    &&& forall|j: int| 0 <= j < v.len() ==> #[trigger] v[j] <= v[i]
    &&& forall|j: int| i < j < v.len() ==> #[trigger] v[j] < v[i]
}

/// The key pair that expires last, as `Iterator::max_by_key` picks it: among
/// the expiry times given, the position of the largest, the last one on a
/// tie; none for no key pairs.
pub fn latest_key_index(not_valid_after: &Vec<i64>) -> (r: Option<usize>)
    ensures
        not_valid_after.len() == 0 <==> r is None,
        r matches Some(i) ==> is_last_maximum(not_valid_after@, i as int),
{
    if not_valid_after.len() == 0 {
        return None;
    }
    let mut best: usize = 0;
    let mut i: usize = 1;
    while i < not_valid_after.len()
        invariant
            1 <= i <= not_valid_after.len(),
            best < i,
            forall|j: int| 0 <= j < i ==> #[trigger] not_valid_after@[j] <= not_valid_after@[best as int],
            forall|j: int| best < j < i ==> #[trigger] not_valid_after@[j] < not_valid_after@[best as int],
        decreases not_valid_after.len() - i,
    {
        if not_valid_after[i] >= not_valid_after[best] {
            best = i;
        }
        i = i + 1;
    }
    Some(best)
}

/// Where a journalist's vault and its password file go.
pub struct JournalistVaultPaths {
    pub vault_path: String,
    pub password_path: String,
}

impl JournalistVaultPaths {
    pub fn new(vault_path: String, password_path: String) -> (r: Self)
        ensures
            r.vault_path@ == vault_path@,
            r.password_path@ == password_path@,
    {
        JournalistVaultPaths { vault_path, password_path }
    }
}

} // verus!
