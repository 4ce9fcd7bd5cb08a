//! Deriving the on-disk name of an upload from the client's filename.
use vstd::prelude::*;

verus! {

/// Index of the last occurrence of `c` in `s`, or -1 when there is none.
pub open spec fn last_index(s: Seq<char>, c: char) -> int
    decreases s.len(),
{
    if s.len() == 0 {
        -1
    } else if s.last() == c {
        s.len() - 1
    } else {
        last_index(s.drop_last(), c)
    }
}

/// `s` without trailing separators and trailing `/.` components, which
/// name no part of a path of their own.
pub open spec fn trim_end(s: Seq<char>) -> Seq<char>
    decreases s.len(),
{
    if s.len() > 0 && s.last() == '/' {
        trim_end(s.drop_last())
    } else if s.len() >= 2 && s.last() == '.' && s[s.len() - 2] == '/' {
        trim_end(s.subrange(0, s.len() - 2))
    } else {
        s
    }
}

/// The final path component of `s`: what follows the last `/` once
/// trailing separators and `/.` components are dropped (`a/b.png/` gives
/// `b.png`).
pub open spec fn base_name(s: Seq<char>) -> Seq<char> {
    let t = trim_end(s);
    t.subrange(last_index(t, '/') + 1, t.len() as int)
}

/// A base name that can name a file of its own: not empty, `.` or `..`.
pub open spec fn is_usable_base(b: Seq<char>) -> bool {
    b.len() > 0 && b != seq!['.'] && b != seq!['.', '.']
}

/// A base name has an extension when it holds a `.` past its first
/// character with at least one character after it.
pub open spec fn has_extension(b: Seq<char>) -> bool {
    0 < last_index(b, '.') < b.len() - 1
}

/// The name without its extension (a trailing `.` is dropped too).
pub open spec fn stem(b: Seq<char>) -> Seq<char> {
    if last_index(b, '.') > 0 {
        b.subrange(0, last_index(b, '.'))
    } else {
        b
    }
}

pub open spec fn default_extension() -> Seq<char> {
    seq!['p', 'd', 'f']
}

/// The extension of a base name as supplied, `pdf` when it has none.
pub open spec fn extension(b: Seq<char>) -> Seq<char> {
    if has_extension(b) {
        b.subrange(last_index(b, '.') + 1, b.len() as int)
    } else {
        default_extension()
    }
}

pub open spec fn is_ascii_upper(c: char) -> bool {
    'A' <= c && c <= 'Z'
}

/// `r` is `s` with each ASCII capital letter replaced by its small letter.
pub open spec fn is_ascii_lower_of(r: Seq<char>, s: Seq<char>) -> bool {
    &&& r.len() == s.len()
    &&& forall|i: int|
        0 <= i < s.len() ==> (if is_ascii_upper(#[trigger] s[i]) {
            r[i] as u32 == s[i] as u32 + 32
        } else {
            r[i] == s[i]
        })
}

/// The client's filename as characters.
pub open spec fn view_client(client: Option<&str>) -> Option<Seq<char>> {
    match client {
        Some(c) => Some(c@),
        None => None,
    }
}

pub open spec fn client_base(client: Option<Seq<char>>) -> Seq<char> {
    match client {
        Some(c) => base_name(c),
        None => Seq::empty(),
    }
}

/// The part of the stored name before its extension: the client's stem
/// when its base name is usable, else the generated token.
pub open spec fn stored_stem(client: Option<Seq<char>>, token: Seq<char>) -> Seq<char> {
    if is_usable_base(client_base(client)) {
        stem(client_base(client))
    } else {
        token
    }
}

/// `r` is the name under which an upload is stored: the stem, a `.`, and
/// the extension in small letters.
pub open spec fn is_stored_name(r: Seq<char>, client: Option<Seq<char>>, token: Seq<char>) -> bool {
    let s = stored_stem(client, token);
    let e = extension(client_base(client));
    &&& r.len() == s.len() + 1 + e.len()
    &&& r.subrange(0, s.len() as int) == s
    &&& r[s.len() as int] == '.'
    &&& is_ascii_lower_of(r.subrange(s.len() as int + 1, r.len() as int), e)
}

pub open spec fn is_lower_hex(c: char) -> bool {
    ('0' <= c && c <= '9') || ('a' <= c && c <= 'f')
}

/// What a generated token looks like: 32 small hexadecimal digits.
pub open spec fn is_token(t: Seq<char>) -> bool {
    t.len() == 32 && forall|i: int| 0 <= i < t.len() ==> is_lower_hex(#[trigger] t[i])
}

/// A name that stays within one directory: not empty, not `.` or `..`,
/// and free of `/`.
pub open spec fn is_single_segment(r: Seq<char>) -> bool {
    &&& r.len() > 0
    &&& r != seq!['.']
    &&& r != seq!['.', '.']
    &&& forall|i: int| 0 <= i < r.len() ==> #[trigger] r[i] != '/'
}

proof fn lemma_last_index(s: Seq<char>, c: char, k: int)
    requires
        -1 <= k < s.len(),
        k >= 0 ==> s[k] == c,
        forall|j: int| k < j < s.len() ==> s[j] != c,
    ensures
        last_index(s, c) == k,
    decreases s.len(),
{
    if s.len() > 0 && s.last() != c {
        lemma_last_index(s.drop_last(), c, k);
    }
}

proof fn lemma_last_index_bounds(s: Seq<char>, c: char)
    ensures
        -1 <= last_index(s, c) < s.len(),
        last_index(s, c) >= 0 ==> s[last_index(s, c)] == c,
        forall|j: int| last_index(s, c) < j < s.len() ==> s[j] != c,
    decreases s.len(),
{
    if s.len() > 0 && s.last() != c {
        lemma_last_index_bounds(s.drop_last(), c);
        assert forall|j: int| last_index(s, c) < j < s.len() implies s[j] != c by {
            if j < s.len() - 1 {
                assert(s[j] == s.drop_last()[j]);
            }
        }
    }
}

/// Position of the last `c` in `s`.
fn last_index_of(s: &str, c: char) -> (r: Option<usize>)
    ensures
        match r {
            Some(k) => k as int == last_index(s@, c),
            None => last_index(s@, c) == -1,
        },
{
    let n = s.unicode_len();
    let mut i: usize = n;
    while i > 0
        invariant
            i <= n,
            n == s@.len(),
            forall|j: int| i <= j < n ==> s@[j] != c,
        decreases i,
    {
        if s.get_char(i - 1) == c {
            proof {
                lemma_last_index(s@, c, i - 1);
            }
            return Some(i - 1);
        }
        i = i - 1;
    }
    proof {
        lemma_last_index(s@, c, -1);
    }
    None
}

/// Relies on str::to_ascii_lowercase: ASCII capitals become small letters,
/// every other character stays.
#[verifier::external_body]
fn ascii_lowercase(s: &str) -> (r: String)
    ensures
        is_ascii_lower_of(r@, s@),
{
    s.to_ascii_lowercase()
}

/// Relies on uuid::Uuid::new_v4, written in its simple form: 32 small
/// hexadecimal digits, random on each call.
#[verifier::external_body]
fn fresh_token() -> (r: String)
    ensures
        is_token(r@),
{
    uuid::Uuid::new_v4().to_simple().to_string()
}

/// The final path component of `s`.
fn base_name_of(s: &str) -> (r: &str)
    ensures
        r@ == base_name(s@),
{
    let n = s.unicode_len();
    let mut e: usize = n;
    assert(s@.subrange(0, e as int) =~= s@);
    loop
        invariant
            e <= n,
            n == s@.len(),
            trim_end(s@) == trim_end(s@.subrange(0, e as int)),
        ensures
            e <= n,
            trim_end(s@) == s@.subrange(0, e as int),
        decreases e,
    {
        let t = Ghost(s@.subrange(0, e as int));
        if e > 0 && s.get_char(e - 1) == '/' {
            assert(t@.drop_last() =~= s@.subrange(0, e - 1));
            e = e - 1;
        } else if e >= 2 && s.get_char(e - 1) == '.' && s.get_char(e - 2) == '/' {
            assert(t@.subrange(0, t@.len() - 2) =~= s@.subrange(0, e - 2));
            e = e - 2;
        } else {
            break;
        }
    }
    let t = s.substring_char(0, e);
    proof {
        lemma_last_index_bounds(t@, '/');
    }
    let start: usize = match last_index_of(t, '/') {
        Some(k) => k + 1,
        None => 0,
    };
    t.substring_char(start, e)
}

/// The name to store an upload under, given the client's filename (if it
/// declared one) and a generated token used when that filename is missing
/// or names no file.
pub fn derive_filename(client: Option<&str>, token: &str) -> (r: String)
    ensures
        is_stored_name(r@, view_client(client), token@),
{
    let base: &str = match client {
        Some(c) => base_name_of(c),
        None => "",
    };
    proof {
        reveal_strlit("");
        lemma_last_index_bounds(base@, '.');
    }
    assert(base@ == client_base(view_client(client)));
    let n = base.unicode_len();
    let usable = n > 0 && !(n == 1 && base.get_char(0) == '.') && !(n == 2 && base.get_char(0)
        == '.' && base.get_char(1) == '.');
    assert(usable == is_usable_base(base@)) by {
        if n == 1 && base@[0] == '.' {
            assert(base@ =~= seq!['.']);
        }
        if n == 2 && base@[0] == '.' && base@[1] == '.' {
            assert(base@ =~= seq!['.', '.']);
        }
    }
    let dot = last_index_of(base, '.');
    let stem_part: &str = if usable {
        match dot {
            Some(k) if k > 0 => base.substring_char(0, k),
            _ => base,
        }
    } else {
        token
    };
    let ext: &str = match dot {
        Some(k) if k > 0 && k + 1 < n => base.substring_char(k + 1, n),
        _ => "pdf",
    };
    proof {
        reveal_strlit("pdf");
        reveal_strlit(".");
    }
    assert(ext@ == extension(base@));
    let lower = ascii_lowercase(ext);
    let mut r = String::from_str(stem_part);
    r.append(".");
    r.append(lower.as_str());
    assert(r@.subrange(0, stem_part@.len() as int) =~= stem_part@);
    assert(r@.subrange(stem_part@.len() as int + 1, r@.len() as int) =~= lower@);
    r
}

/// A fresh name for an upload: derived from the client's filename, with a
/// newly generated token standing in where that filename names no file.
pub fn new_filename(client: Option<&str>) -> (r: String)
    ensures
        exists|t: Seq<char>| is_token(t) && is_stored_name(r@, view_client(client), t),
{
    let token = fresh_token();
    derive_filename(client, token.as_str())
}

proof fn lemma_no_slash_in_base(s: Seq<char>)
    ensures
        forall|i: int| 0 <= i < base_name(s).len() ==> #[trigger] base_name(s)[i] != '/',
{
    let t = trim_end(s);
    lemma_last_index_bounds(t, '/');
    assert forall|i: int| 0 <= i < base_name(s).len() implies #[trigger] base_name(s)[i] != '/' by {
        assert(base_name(s)[i] == t[last_index(t, '/') + 1 + i]);
    }
}

/// Whatever filename the client sends, traversal sequences included, the
/// stored name is a single path component: joined to the upload root it
/// names an entry directly inside the root.
pub proof fn lemma_stored_name_stays_in_root(
    r: Seq<char>,
    client: Option<Seq<char>>,
    token: Seq<char>,
)
    requires
        is_token(token),
        is_stored_name(r, client, token),
    ensures
        is_single_segment(r),
{
    let b = client_base(client);
    let s = stored_stem(client, token);
    let e = extension(b);
    let n = s.len() as int;
    if let Some(c) = client {
        lemma_no_slash_in_base(c);
    }
    lemma_last_index_bounds(b, '.');
    assert(forall|i: int| 0 <= i < b.len() ==> #[trigger] b[i] != '/');
    assert(forall|i: int| 0 <= i < s.len() ==> #[trigger] s[i] != '/') by {
        assert forall|i: int| 0 <= i < s.len() implies #[trigger] s[i] != '/' by {
            if !is_usable_base(b) {
                assert(is_lower_hex(token[i]));
            } else if last_index(b, '.') > 0 {
                assert(s[i] == b[i]);
            }
        }
    }
    assert(e.len() > 0 && e.last() != '.' && forall|i: int| 0 <= i < e.len() ==> #[trigger] e[i]
        != '/') by {
        if has_extension(b) {
            assert forall|i: int| 0 <= i < e.len() implies #[trigger] e[i] != '/' by {
                assert(e[i] == b[last_index(b, '.') + 1 + i]);
            }
            assert(e.last() == b[b.len() - 1]);
        }
    }
    let l = r.subrange(n + 1, r.len() as int);
    assert forall|i: int| 0 <= i < r.len() implies #[trigger] r[i] != '/' by {
        if i < n {
            assert(r[i] == r.subrange(0, n)[i]);
        } else if i > n {
            assert(r[i] == l[i - n - 1]);
            assert(is_ascii_upper(e[i - n - 1]) || l[i - n - 1] == e[i - n - 1]);
        }
    }
    assert(r.last() != '.') by {
        assert(r.last() == l[e.len() - 1]);
        assert(is_ascii_upper(e[e.len() - 1]) || l[e.len() - 1] == e[e.len() - 1]);
    }
}

/// A client filename with an extension keeps that extension, in small
/// letters; without a client filename the name is the token and `pdf`.
pub proof fn lemma_extension_of_stored_name(
    r: Seq<char>,
    client: Option<Seq<char>>,
    token: Seq<char>,
)
    requires
        is_stored_name(r, client, token),
    ensures
        has_extension(client_base(client)) ==> is_ascii_lower_of(
            r.subrange(r.len() - extension(client_base(client)).len(), r.len() as int),
            client_base(client).subrange(
                last_index(client_base(client), '.') + 1,
                client_base(client).len() as int,
            ),
        ),
        client is None ==> r == token + seq!['.', 'p', 'd', 'f'],
{
    let s = stored_stem(client, token);
    if client is None {
        assert(client_base(client) =~= Seq::<char>::empty());
        assert(last_index(Seq::<char>::empty(), '.') == -1);
        let l = r.subrange(s.len() as int + 1, r.len() as int);
        assert(l =~= seq!['p', 'd', 'f']) by {
            assert forall|i: int| 0 <= i < 3 implies l[i] == default_extension()[i] by {
                assert(!is_ascii_upper(default_extension()[i]));
            }
        }
        assert(r =~= token + seq!['.', 'p', 'd', 'f']) by {
            assert forall|i: int| 0 <= i < r.len() implies r[i] == (token + seq![
                '.',
                'p',
                'd',
                'f',
            ])[i] by {
                if i < s.len() {
                    assert(r[i] == r.subrange(0, s.len() as int)[i]);
                } else if i > s.len() {
                    assert(r[i] == l[i - s.len() - 1]);
                }
            }
        }
    }
    assert(r.subrange(r.len() - extension(client_base(client)).len(), r.len() as int)
        =~= r.subrange(s.len() as int + 1, r.len() as int));
}

} // verus!
