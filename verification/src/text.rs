//! Character-level helpers: building strings, `::`-separated names and
//! Unix-style path joining, each with its meaning stated over `Seq<char>`.
use vstd::prelude::*;
use vstd::string::*;

verus! {

/// Appends one character to a string (std's `String::push`).
#[verifier::external_body]
pub(crate) fn push_char(s: &mut String, c: char)
    ensures
        final(s)@ == old(s)@.push(c),
{
    s.push(c);
}

/// The characters of a string slice, in order.
pub fn chars_of(s: &str) -> (v: Vec<char>)
    ensures
        v@ == s@,
{
    let mut v: Vec<char> = Vec::new();
    for c in it: s.chars()
        invariant
            v@ == it.seq().take(it.index() as int),
            it.seq() == s@,
    {
        v.push(c);
    }
    v
}

/// The string made of `chars[lo..hi]`.
pub fn string_from_range(chars: &Vec<char>, lo: usize, hi: usize) -> (r: String)
    requires
        lo <= hi <= chars@.len(),
    ensures
        r@ == chars@.subrange(lo as int, hi as int),
{
    let mut r = String::new();
    let mut i = lo;
    while i < hi
        invariant
            lo <= i <= hi <= chars@.len(),
            r@ == chars@.subrange(lo as int, i as int),
        decreases hi - i,
    {
        push_char(&mut r, chars[i]);
        assert(chars@.subrange(lo as int, i + 1) =~= chars@.subrange(lo as int, i as int).push(chars@[i as int]));
        i = i + 1;
    }
    r
}

/// Concatenation of two string slices.
pub fn concat2(a: &str, b: &str) -> (r: String)
    ensures
        r@ == a@ + b@,
{
    let mut r = String::from_str(a);
    r.append(b);
    r
}

/// Concatenation of three string slices.
pub fn concat3(a: &str, b: &str, c: &str) -> (r: String)
    ensures
        r@ == a@ + b@ + c@,
{
    let mut r = String::from_str(a);
    r.append(b);
    r.append(c);
    r
}

/// Whether two string slices hold the same characters.
pub fn str_equal(a: &str, b: &str) -> (r: bool)
    ensures
        r == (a@ == b@),
{
    a.to_owned() == b.to_owned()
}

/// The decimal digits of a number.
pub open spec fn decimal(n: nat) -> Seq<char>
    decreases n,
{
    if n < 10 {
        seq![digit_char(n)]
    } else {
        decimal(n / 10) + seq![digit_char(n % 10)]
    }
}

pub open spec fn digit_char(d: nat) -> char {
    if d == 0 { '0' } else if d == 1 { '1' } else if d == 2 { '2' } else if d == 3 { '3' }
    else if d == 4 { '4' } else if d == 5 { '5' } else if d == 6 { '6' } else if d == 7 { '7' }
    else if d == 8 { '8' } else { '9' }
}

fn digit(d: usize) -> (c: char)
    requires
        d < 10,
    ensures
        c == digit_char(d as nat),
{
    if d == 0 { '0' } else if d == 1 { '1' } else if d == 2 { '2' } else if d == 3 { '3' }
    else if d == 4 { '4' } else if d == 5 { '5' } else if d == 6 { '6' } else if d == 7 { '7' }
    else if d == 8 { '8' } else { '9' }
}

/// The decimal text of a number, as `Display` writes it.
pub fn decimal_string(n: usize) -> (r: String)
    ensures
        r@ == decimal(n as nat),
    decreases n,
{
    if n < 10 {
        let mut r = String::new();
        push_char(&mut r, digit(n));
        assert(r@ =~= seq![digit_char(n as nat)]);
        r
    } else {
        let mut r = decimal_string(n / 10);
        push_char(&mut r, digit(n % 10));
        r
    }
}

// ---------------------------------------------------------------------------
// Unix paths held as text.
// ---------------------------------------------------------------------------

/// `PathBuf::push` on Unix: an absolute `part` replaces the path; otherwise a
/// `/` is inserted unless the path is empty or already ends in one.
pub open spec fn path_push(base: Seq<char>, part: Seq<char>) -> Seq<char> {
    if part.len() > 0 && part[0] == '/' {
        part
    } else if base.len() > 0 && base.last() != '/' {
        base + seq!['/'] + part
    } else {
        base + part
    }
}

/// Joins `part` onto `base` as `Path::join` does on Unix.
pub fn path_join(base: &str, part: &str) -> (r: String)
    ensures
        r@ == path_push(base@, part@),
{
    let b = chars_of(base);
    let p = chars_of(part);
    if p.len() > 0 && p[0] == '/' {
        part.to_owned()
    } else if b.len() > 0 && b[b.len() - 1] != '/' {
        let mut r = String::from_str(base);
        push_char(&mut r, '/');
        r.append(part);
        r
    } else {
        concat2(base, part)
    }
}

/// The pieces of `s` between `::` separators, scanning from `i` with the
/// current piece starting at `start` (as `str::split("::")`).
pub open spec fn split_pieces_from(s: Seq<char>, start: int, i: int) -> Seq<Seq<char>>
    recommends
        0 <= start <= i <= s.len(),
    decreases s.len() - i,
{
    if i + 1 >= s.len() || i < 0 {
        seq![s.subrange(start, s.len() as int)]
    } else if s[i] == ':' && s[i + 1] == ':' {
        seq![s.subrange(start, i)] + split_pieces_from(s, i + 2, i + 2)
    } else {
        split_pieces_from(s, start, i + 1)
    }
}

/// The `::`-separated pieces of a name.
pub open spec fn name_pieces(name: Seq<char>) -> Seq<Seq<char>> {
    split_pieces_from(name, 0, 0)
}

/// Pushes each piece in turn onto `acc`.
pub open spec fn push_all(acc: Seq<char>, pieces: Seq<Seq<char>>) -> Seq<char>
    decreases pieces.len(),
{
    if pieces.len() == 0 {
        acc
    } else {
        push_all(path_push(acc, pieces[0]), pieces.drop_first())
    }
}

/// The relative path that a name stands for: each `::`-separated piece is a
/// directory below the previous one.
pub open spec fn name_path(name: Seq<char>) -> Seq<char> {
    push_all(Seq::empty(), name_pieces(name))
}

proof fn lemma_push_all_snoc(acc: Seq<char>, pieces: Seq<Seq<char>>, last: Seq<char>)
    ensures
        push_all(acc, pieces.push(last)) == path_push(push_all(acc, pieces), last),
    decreases pieces.len(),
{
    if pieces.len() == 0 {
        assert(pieces.push(last).drop_first() =~= Seq::<Seq<char>>::empty());
        assert(push_all(path_push(acc, last), Seq::<Seq<char>>::empty()) == path_push(acc, last));
        assert(pieces.push(last)[0] == last);
    } else {
        assert(pieces.push(last).drop_first() =~= pieces.drop_first().push(last));
        assert(pieces.push(last)[0] == pieces[0]);
        lemma_push_all_snoc(path_push(acc, pieces[0]), pieces.drop_first(), last);
    }
}

proof fn lemma_split_scan(s: Seq<char>, start: int, i: int, p: int)
    requires
        0 <= start <= i <= p <= s.len(),
        forall|k: int| i <= k < p ==> s[k] != ':',
    ensures
        split_pieces_from(s, start, i) == split_pieces_from(s, start, p),
    decreases p - i,
{
    if i < p && i + 1 < s.len() {
        lemma_split_scan(s, start, i + 1, p);
    }
}

proof fn lemma_split_shift(pre: Seq<char>, b: Seq<char>, start: int, i: int)
    requires
        0 <= start <= i <= b.len(),
    ensures
        split_pieces_from(pre + b, pre.len() + start, pre.len() + i) == split_pieces_from(b, start, i),
    decreases b.len() - i,
{
    let s = pre + b;
    let n = pre.len() as int;
    if i + 1 >= b.len() {
        assert(s.subrange(n + start, s.len() as int) =~= b.subrange(start, b.len() as int));
    } else {
        assert(s[n + i] == b[i]);
        assert(s[n + i + 1] == b[i + 1]);
        if b[i] == ':' && b[i + 1] == ':' {
            assert(s.subrange(n + start, n + i) =~= b.subrange(start, i));
            lemma_split_shift(pre, b, i + 2, i + 2);
        } else {
            lemma_split_shift(pre, b, start, i + 1);
        }
    }
}

/// A name without `:` is a single piece, and the path it stands for is the
/// name itself: one directory.
pub proof fn law_name_without_separator(name: Seq<char>)
    requires
        forall|k: int| 0 <= k < name.len() ==> name[k] != ':',
    ensures
        name_pieces(name) == seq![name],
        name_path(name) == name,
{
    lemma_split_scan(name, 0, 0, name.len() as int);
    assert(name.subrange(0, name.len() as int) =~= name);
    let pieces = seq![name];
    assert(pieces.drop_first() =~= Seq::<Seq<char>>::empty());
    assert(pieces[0] == name);
    assert(path_push(Seq::empty(), name) =~= name);
    assert(push_all(name, Seq::<Seq<char>>::empty()) == name);
    assert(push_all(Seq::empty(), pieces) == push_all(path_push(Seq::empty(), name), pieces.drop_first()));
}

/// Each `::` of a name separates one piece from the next: a first piece
/// without `:`, then `::`, then the rest, gives that piece followed by the
/// pieces of the rest.
pub proof fn law_name_pieces_split(first: Seq<char>, rest: Seq<char>)
    requires
        forall|k: int| 0 <= k < first.len() ==> first[k] != ':',
    ensures
        name_pieces(first + "::"@ + rest) == seq![first] + name_pieces(rest),
{
    reveal_strlit("::");
    let sep = "::"@;
    let pre = first + sep;
    let s = first + sep + rest;
    assert(s =~= pre + rest);
    let p = first.len() as int;
    assert forall|k: int| 0 <= k < p implies s[k] != ':' by {
        assert(s[k] == first[k]);
    }
    lemma_split_scan(s, 0, 0, p);
    assert(s[p] == ':' && s[p + 1] == ':');
    assert(s.subrange(0, p) =~= first);
    lemma_split_shift(pre, rest, 0, 0);
}

/// Converts a name into a partial path: each `::`-separated piece of the name
/// becomes a directory below the previous one.
pub fn name_to_path(name: &str) -> (r: String)
    ensures
        r@ == name_path(name@),
{
    let chars = chars_of(name);
    let n = chars.len();
    let mut path = String::new();
    let mut start: usize = 0;
    let mut i: usize = 0;
    let ghost mut done: Seq<Seq<char>> = Seq::empty();
    while n > 0 && i < n - 1
        invariant
            chars@ == name@,
            n == chars@.len(),
            start <= i <= n,
            done + split_pieces_from(name@, start as int, i as int) == name_pieces(name@),
            path@ == push_all(Seq::empty(), done),
        decreases n - i,
    {
        if chars[i] == ':' && chars[i + 1] == ':' {
            let piece = string_from_range(&chars, start, i);
            proof {
                assert(split_pieces_from(name@, start as int, i as int)
                    == seq![piece@] + split_pieces_from(name@, i + 2, i + 2));
                assert(done + split_pieces_from(name@, start as int, i as int)
                    =~= done.push(piece@) + split_pieces_from(name@, i + 2, i + 2));
                lemma_push_all_snoc(Seq::empty(), done, piece@);
                done = done.push(piece@);
            }
            path = path_join(path.as_str(), piece.as_str());
            start = i + 2;
            i = i + 2;
        } else {
            i = i + 1;
        }
    }
    let piece = string_from_range(&chars, start, n);
    proof {
        assert(split_pieces_from(name@, start as int, i as int) == seq![piece@]);
        assert(done + seq![piece@] =~= done.push(piece@));
        lemma_push_all_snoc(Seq::empty(), done, piece@);
    }
    path_join(path.as_str(), piece.as_str())
}

} // verus!

verus! {

// ---------------------------------------------------------------------------
// Ordering of texts.
// ---------------------------------------------------------------------------

/// Lexicographic order of texts by character, as `str`'s `Ord` orders them.
pub open spec fn text_less(a: Seq<char>, b: Seq<char>) -> bool
    decreases a.len(),
{
    if a.len() == 0 {
        b.len() > 0
    } else if b.len() == 0 {
        false
    } else if a[0] != b[0] {
        (a[0] as u32) < (b[0] as u32)
    } else {
        text_less(a.drop_first(), b.drop_first())
    }
}

pub proof fn lemma_text_less_irreflexive(a: Seq<char>)
    ensures
        !text_less(a, a),
    decreases a.len(),
{
    if a.len() > 0 {
        lemma_text_less_irreflexive(a.drop_first());
    }
}

pub proof fn lemma_text_less_asymmetric(a: Seq<char>, b: Seq<char>)
    ensures
        !(text_less(a, b) && text_less(b, a)),
    decreases a.len(),
{
    if a.len() > 0 && b.len() > 0 && a[0] == b[0] {
        lemma_text_less_asymmetric(a.drop_first(), b.drop_first());
    }
}

pub proof fn lemma_text_less_total(a: Seq<char>, b: Seq<char>)
    ensures
        a != b ==> text_less(a, b) || text_less(b, a),
    decreases a.len(),
{
    if a.len() > 0 && b.len() > 0 {
        if a[0] == b[0] {
            lemma_text_less_total(a.drop_first(), b.drop_first());
            if a.drop_first() == b.drop_first() {
                assert(a =~= seq![a[0]] + a.drop_first());
                assert(b =~= seq![b[0]] + b.drop_first());
            }
        } else {
            vstd::utf8::char_u32_cast(a[0], a[0] as u32);
            vstd::utf8::char_u32_cast(b[0], b[0] as u32);
        }
    } else if a.len() == 0 && b.len() == 0 {
        assert(a =~= b);
    }
}

pub proof fn lemma_text_less_transitive(a: Seq<char>, b: Seq<char>, c: Seq<char>)
    requires
        text_less(a, b),
        text_less(b, c),
    ensures
        text_less(a, c),
    decreases a.len(),
{
    if a.len() > 0 && b.len() > 0 && c.len() > 0 && a[0] == b[0] && b[0] == c[0] {
        lemma_text_less_transitive(a.drop_first(), b.drop_first(), c.drop_first());
    }
}

/// The result of comparing two texts.
#[derive(Debug, Clone, Copy, PartialEq, Eq)]
pub enum TextOrder {
    Less,
    Equal,
    Greater,
}

/// Compares two texts lexicographically by character.
pub fn compare_text(a: &str, b: &str) -> (r: TextOrder)
    ensures
        (r == TextOrder::Less) == text_less(a@, b@),
        (r == TextOrder::Equal) == (a@ == b@),
        (r == TextOrder::Greater) == text_less(b@, a@),
{
    let x = chars_of(a);
    let y = chars_of(b);
    let mut i: usize = 0;
    proof {
        lemma_text_less_irreflexive(a@);
        lemma_text_less_asymmetric(a@, b@);
        lemma_text_less_total(a@, b@);
        assert(a@.skip(0) =~= a@);
        assert(b@.skip(0) =~= b@);
    }
    while i < x.len() && i < y.len()
        invariant
            x@ == a@,
            y@ == b@,
            i <= x@.len(),
            i <= y@.len(),
            x@.take(i as int) == y@.take(i as int),
            text_less(a@, b@) == text_less(a@.skip(i as int), b@.skip(i as int)),
            text_less(b@, a@) == text_less(b@.skip(i as int), a@.skip(i as int)),
        decreases x@.len() - i,
    {
        assert(a@.skip(i as int).drop_first() =~= a@.skip(i + 1));
        assert(b@.skip(i as int).drop_first() =~= b@.skip(i + 1));
        if x[i] != y[i] {
            proof {
                vstd::utf8::char_u32_cast(x@[i as int], x@[i as int] as u32);
                vstd::utf8::char_u32_cast(y@[i as int], y@[i as int] as u32);
            }
            if (x[i] as u32) < (y[i] as u32) {
                return TextOrder::Less;
            } else {
                return TextOrder::Greater;
            }
        }
        assert(x@.take(i + 1) =~= x@.take(i as int).push(x@[i as int]));
        assert(y@.take(i + 1) =~= y@.take(i as int).push(y@[i as int]));
        i = i + 1;
    }
    if x.len() == y.len() {
        assert(x@ =~= x@.take(i as int));
        assert(y@ =~= y@.take(i as int));
        TextOrder::Equal
    } else if x.len() < y.len() {
        TextOrder::Less
    } else {
        TextOrder::Greater
    }
}

// ---------------------------------------------------------------------------
// Parent directories.
// ---------------------------------------------------------------------------

/// The text without its trailing `/` characters.
pub open spec fn trim_trailing_slashes(p: Seq<char>) -> Seq<char>
    decreases p.len(),
{
    if p.len() > 0 && p.last() == '/' {
        trim_trailing_slashes(p.drop_last())
    } else {
        p
    }
}

/// The index of the last `/` of a text, or -1.
pub open spec fn last_slash(p: Seq<char>) -> int
    decreases p.len(),
{
    if p.len() == 0 {
        -1
    } else if p.last() == '/' {
        p.len() - 1
    } else {
        last_slash(p.drop_last())
    }
}

/// The parent of a `/`-separated path, as `Path::parent` gives it for paths
/// without `.` components: trailing separators are ignored, the last
/// component is dropped with the separators before it, a path of a single
/// relative component has the empty parent, and the root (or the empty path)
/// has none.
pub open spec fn path_parent(p: Seq<char>) -> Option<Seq<char>> {
    let q = trim_trailing_slashes(p);
    if q.len() == 0 {
        None
    } else if last_slash(q) < 0 {
        Some(Seq::empty())
    } else {
        let head = trim_trailing_slashes(q.subrange(0, last_slash(q)));
        if head.len() == 0 {
            Some(seq!['/'])
        } else {
            Some(head)
        }
    }
}

proof fn lemma_last_slash_bounds(p: Seq<char>)
    ensures
        -1 <= last_slash(p) < p.len(),
        last_slash(p) >= 0 ==> p[last_slash(p)] == '/',
        forall|k: int| last_slash(p) < k < p.len() ==> p[k] != '/',
    decreases p.len(),
{
    if p.len() > 0 && p.last() != '/' {
        lemma_last_slash_bounds(p.drop_last());
        assert forall|k: int| last_slash(p) < k < p.len() implies p[k] != '/' by {
            if k < p.len() - 1 {
                assert(p.drop_last()[k] == p[k]);
            }
        }
    }
}

proof fn lemma_trim_trailing_slashes(p: Seq<char>)
    ensures
        trim_trailing_slashes(p).len() <= p.len(),
        trim_trailing_slashes(p) == p.subrange(0, trim_trailing_slashes(p).len() as int),
        trim_trailing_slashes(p).len() > 0 ==> trim_trailing_slashes(p).last() != '/',
    decreases p.len(),
{
    if p.len() > 0 && p.last() == '/' {
        lemma_trim_trailing_slashes(p.drop_last());
        let n = trim_trailing_slashes(p).len() as int;
        assert(p.drop_last().subrange(0, n) =~= p.subrange(0, n));
    } else {
        assert(p.subrange(0, p.len() as int) =~= p);
    }
}

/// A parent is shorter than the path it is the parent of.
pub proof fn lemma_parent_shorter(p: Seq<char>)
    ensures
        path_parent(p) matches Some(q) ==> q.len() < p.len(),
{
    let q = trim_trailing_slashes(p);
    lemma_trim_trailing_slashes(p);
    if q.len() > 0 && last_slash(q) >= 0 {
        lemma_last_slash_bounds(q);
        let ls = last_slash(q);
        assert(q[ls] == '/');
        assert(ls < q.len() - 1);
        lemma_trim_trailing_slashes(q.subrange(0, ls));
    }
}

/// The directory and each of its ancestors in turn, as repeated
/// `PathBuf::pop` visits them.
pub open spec fn ancestors(dir: Seq<char>) -> Seq<Seq<char>>
    decreases dir.len(),
{
    match path_parent(dir) {
        Some(up) => {
            proof {
                lemma_parent_shorter(dir);
            }
            seq![dir] + ancestors(up)
        },
        None => seq![dir],
    }
}

/// The last `/` of `x`, a `/`, then a name without one, is that `/`.
proof fn lemma_last_slash_after(x: Seq<char>, name: Seq<char>)
    requires
        forall|i: int| 0 <= i < name.len() ==> name[i] != '/',
    ensures
        last_slash(x.push('/') + name) == x.len(),
    decreases name.len(),
{
    if name.len() == 0 {
        assert(x.push('/') + name =~= x.push('/'));
    } else {
        let shorter = name.drop_last();
        lemma_last_slash_after(x, shorter);
        assert((x.push('/') + name).drop_last() =~= x.push('/') + shorter);
    }
}

/// Joining a name without `/` onto a directory path that is not empty and
/// has no trailing `/` (or is the root), then taking the parent, gives the
/// directory back.
pub proof fn law_parent_of_joined(dir: Seq<char>, name: Seq<char>)
    requires
        dir.len() > 0,
        dir == seq!['/'] || dir.last() != '/',
        name.len() > 0,
        forall|i: int| 0 <= i < name.len() ==> name[i] != '/',
    ensures
        path_parent(path_push(dir, name)) == Some(dir),
{
    let p = path_push(dir, name);
    assert(name[0] != '/');
    assert(name.last() != '/');
    let x = if dir.last() != '/' { dir } else { Seq::<char>::empty() };
    assert(p =~= x.push('/') + name);
    assert(p.last() == name.last());
    assert(trim_trailing_slashes(p) == p);
    lemma_last_slash_after(x, name);
    assert(p.subrange(0, x.len() as int) =~= x);
    if dir.last() != '/' {
        lemma_trim_trailing_slashes(dir);
        assert(trim_trailing_slashes(dir) == dir);
    } else {
        assert(trim_trailing_slashes(x) == x);
    }
}

fn trimmed_len(chars: &Vec<char>, len: usize) -> (r: usize)
    requires
        len <= chars@.len(),
    ensures
        r <= len,
        chars@.subrange(0, r as int) == trim_trailing_slashes(chars@.subrange(0, len as int)),
{
    let mut n = len;
    while n > 0 && chars[n - 1] == '/'
        invariant
            n <= len <= chars@.len(),
            trim_trailing_slashes(chars@.subrange(0, len as int)) == trim_trailing_slashes(chars@.subrange(0, n as int)),
        decreases n,
    {
        assert(chars@.subrange(0, n as int).drop_last() =~= chars@.subrange(0, n - 1));
        n = n - 1;
    }
    n
}

/// The parent directory of a path, if it has one.
pub fn parent_of(path: &str) -> (r: Option<String>)
    ensures
        match r {
            Some(s) => path_parent(path@) == Some(s@),
            None => path_parent(path@) is None,
        },
{
    let chars = chars_of(path);
    let n = trimmed_len(&chars, chars.len());
    assert(chars@.subrange(0, chars@.len() as int) =~= chars@);
    if n == 0 {
        return None;
    }
    let ghost q = chars@.subrange(0, n as int);
    let mut i = n;
    while i > 0 && chars[i - 1] != '/'
        invariant
            i <= n <= chars@.len(),
            q == chars@.subrange(0, n as int),
            last_slash(q) == last_slash(chars@.subrange(0, i as int)),
        decreases i,
    {
        assert(chars@.subrange(0, i as int).drop_last() =~= chars@.subrange(0, i - 1));
        i = i - 1;
    }
    if i == 0 {
        assert(last_slash(chars@.subrange(0, 0)) == -1);
        return Some(String::new());
    }
    assert(last_slash(chars@.subrange(0, i as int)) == i - 1);
    let ghost slash = i - 1;
    assert(q.subrange(0, slash as int) =~= chars@.subrange(0, slash as int));
    let h = trimmed_len(&chars, i - 1);
    if h == 0 {
        let mut root = String::new();
        push_char(&mut root, '/');
        assert(root@ =~= seq!['/']);
        Some(root)
    } else {
        Some(string_from_range(&chars, 0, h))
    }
}

// ---------------------------------------------------------------------------
// Lists of strings and lines of text.
// ---------------------------------------------------------------------------

/// The texts of a list of strings.
pub open spec fn strings_model(v: Seq<String>) -> Seq<Seq<char>> {
    v.map_values(|s: String| s@)
}

/// Appends a copy of `s` to the list.
pub fn push_str(v: &mut Vec<String>, s: &str)
    ensures
        strings_model(final(v)@) == strings_model(old(v)@).push(s@),
{
    v.push(s.to_owned());
    assert(strings_model(v@) =~= strings_model(old(v)@).push(s@));
}

/// A copy of a list of strings.
pub fn copy_strings(v: &Vec<String>) -> (r: Vec<String>)
    ensures
        strings_model(r@) == strings_model(v@),
{
    let mut r: Vec<String> = Vec::new();
    let mut i: usize = 0;
    while i < v.len()
        invariant
            i <= v@.len(),
            strings_model(r@) == strings_model(v@).take(i as int),
        decreases v@.len() - i,
    {
        push_str(&mut r, v[i].as_str());
        assert(strings_model(v@).take(i + 1) =~= strings_model(v@).take(i as int).push(v@[i as int]@));
        i = i + 1;
    }
    assert(strings_model(v@).take(i as int) =~= strings_model(v@));
    r
}

/// The pieces of a text between its `\n` characters, as `str::split("\n")`
/// gives them: a text without one is a single piece, and a `\n` at either end
/// gives an empty piece there.
pub open spec fn split_lines(s: Seq<char>) -> Seq<Seq<char>>
    decreases s.len(),
{
    if s.len() == 0 {
        seq![Seq::empty()]
    } else {
        let before = split_lines(s.drop_last());
        if s.last() == '\n' {
            before.push(Seq::empty())
        } else {
            before.update(before.len() - 1, before.last().push(s.last()))
        }
    }
}

/// A text always splits into at least one line.
pub proof fn lemma_split_lines_nonempty(s: Seq<char>)
    ensures
        split_lines(s).len() >= 1,
    decreases s.len(),
{
    if s.len() > 0 {
        lemma_split_lines_nonempty(s.drop_last());
    }
}

/// Splits a text into its lines, the pieces between its `\n` characters.
pub fn lines_of(text: &str) -> (r: Vec<String>)
    ensures
        strings_model(r@) == split_lines(text@),
{
    let chars = chars_of(text);
    let mut lines: Vec<String> = Vec::new();
    let mut current = String::new();
    let mut i: usize = 0;
    assert(chars@.subrange(0, 0) =~= Seq::<char>::empty());
    assert(strings_model(lines@).push(current@) =~= seq![Seq::<char>::empty()]);
    while i < chars.len()
        invariant
            i <= chars@.len(),
            chars@ == text@,
            strings_model(lines@).push(current@) == split_lines(chars@.subrange(0, i as int)),
        decreases chars@.len() - i,
    {
        let c = chars[i];
        let ghost prefix = chars@.subrange(0, i + 1);
        assert(prefix.drop_last() =~= chars@.subrange(0, i as int));
        assert(prefix.last() == c);
        proof {
            lemma_split_lines_nonempty(chars@.subrange(0, i as int));
        }
        if c == '\n' {
            let ghost before = strings_model(lines@);
            lines.push(current);
            current = String::new();
            assert(strings_model(lines@) =~= before.push(split_lines(chars@.subrange(0, i as int)).last()));
            assert(strings_model(lines@).push(current@) =~= split_lines(prefix));
        } else {
            push_char(&mut current, c);
            assert(strings_model(lines@).push(current@) =~= split_lines(prefix));
        }
        i = i + 1;
    }
    assert(chars@.subrange(0, chars@.len() as int) =~= chars@);
    let ghost before = strings_model(lines@);
    lines.push(current);
    assert(strings_model(lines@) =~= before.push(current@));
    lines
}

} // verus!
