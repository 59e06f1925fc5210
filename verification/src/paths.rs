//! The order of slash-separated paths, part by part.
use crate::text;
use vstd::prelude::*;

verus! {

/// The first slash from `from` on, or the end.
pub open spec fn piece_end(path: Seq<char>, from: int) -> int
    decreases path.len() - from,
{
    if from < 0 || from >= path.len() {
        path.len() as int
    } else if path[from] == '/' {
        from
    } else {
        piece_end(path, from + 1)
    }
}

/// What follows a piece and the slash behind it.
pub open spec fn behind_piece(path: Seq<char>) -> Seq<char> {
    let end = piece_end(path, 0);
    if end < path.len() {
        path.skip(end + 1)
    } else {
        Seq::empty()
    }
}

/// The pieces between slashes, without the empty ones and without single dots.
pub open spec fn names(path: Seq<char>) -> Seq<Seq<char>>
    decreases path.len(),
{
    if path.len() == 0 {
        Seq::empty()
    } else {
        proof {
            piece_end_is_inside(path, 0);
        }
        let piece = path.take(piece_end(path, 0));
        let rest = names(behind_piece(path));
        if piece.len() == 0 || piece == "."@ {
            rest
        } else {
            seq![piece] + rest
        }
    }
}

/// What a path starts with before its names: the root, the current directory
/// where it says so, or nothing.
pub open spec fn start(path: Seq<char>) -> Seq<Seq<char>> {
    if path.len() > 0 && path[0] == '/' {
        seq!["/"@]
    } else if path.take(piece_end(path, 0)) == "."@ {
        seq!["."@]
    } else {
        Seq::empty()
    }
}

/// The parts of a path. Repeated slashes, a slash at the end and single dots
/// count for nothing, but for a single dot at the very start.
pub open spec fn parts(path: Seq<char>) -> Seq<Seq<char>> {
    start(path) + names(path)
}

/// The root comes before the current directory, that before the parent
/// directory, and that before every name.
pub open spec fn rank(part: Seq<char>) -> int {
    if part == "/"@ {
        0
    } else if part == "."@ {
        1
    } else if part == ".."@ {
        2
    } else {
        3
    }
}

/// Whether one part comes before another.
pub open spec fn part_before(a: Seq<char>, b: Seq<char>) -> bool {
    rank(a) < rank(b) || (rank(a) == rank(b) && text::less(a, b))
}

/// Whether a list of parts comes before another.
pub open spec fn parts_before(a: Seq<Seq<char>>, b: Seq<Seq<char>>) -> bool
    decreases a.len(),
{
    if b.len() == 0 {
        false
    } else if a.len() == 0 {
        true
    } else if a[0] != b[0] {
        part_before(a[0], b[0])
    } else {
        parts_before(a.skip(1), b.skip(1))
    }
}

/// Whether one path comes before another.
pub open spec fn before(a: Seq<char>, b: Seq<char>) -> bool {
    parts_before(parts(a), parts(b))
}

/// Of two paths at most one comes before the other, and neither does exactly
/// when they have the same parts.
pub proof fn before_is_total(a: Seq<char>, b: Seq<char>)
    ensures
        !(before(a, b) && before(b, a)),
        before(a, b) || before(b, a) || parts(a) == parts(b),
        parts(a) == parts(b) ==> !before(a, b),
{
    parts_before_is_total(parts(a), parts(b));
}

/// The order of paths is transitive.
pub proof fn before_is_transitive(a: Seq<char>, b: Seq<char>, c: Seq<char>)
    requires
        before(a, b),
        before(b, c),
    ensures
        before(a, c),
{
    parts_before_is_transitive(parts(a), parts(b), parts(c));
}

/// What comes behind a path comes behind all that the path comes behind.
pub proof fn stays_behind(a: Seq<char>, b: Seq<char>, c: Seq<char>)
    requires
        !before(b, a),
        !before(c, b),
    ensures
        !before(c, a),
{
    before_is_total(a, b);
    before_is_total(b, c);
    before_is_total(a, c);
    if before(a, b) && before(b, c) {
        before_is_transitive(a, b, c);
    }
}

proof fn parts_before_is_total(a: Seq<Seq<char>>, b: Seq<Seq<char>>)
    ensures
        !(parts_before(a, b) && parts_before(b, a)),
        parts_before(a, b) || parts_before(b, a) || a == b,
        a == b ==> !parts_before(a, b),
    decreases a.len(),
{
    if a.len() > 0 && b.len() > 0 {
        text::less_is_total(a[0], b[0]);
        if a[0] == b[0] {
            parts_before_is_total(a.skip(1), b.skip(1));
            if a.skip(1) == b.skip(1) {
                assert(a =~= seq![a[0]] + a.skip(1));
                assert(b =~= seq![b[0]] + b.skip(1));
            }
        }
    } else if a.len() == 0 && b.len() == 0 {
        assert(a =~= b);
    }
}

proof fn parts_before_is_transitive(a: Seq<Seq<char>>, b: Seq<Seq<char>>, c: Seq<Seq<char>>)
    requires
        parts_before(a, b),
        parts_before(b, c),
    ensures
        parts_before(a, c),
    decreases a.len(),
{
    if a.len() > 0 && b.len() > 0 && c.len() > 0 {
        text::less_is_total(a[0], b[0]);
        text::less_is_total(b[0], c[0]);
        if a[0] == b[0] && b[0] == c[0] {
            parts_before_is_transitive(a.skip(1), b.skip(1), c.skip(1));
        } else if a[0] != b[0] && b[0] != c[0] {
            if text::less(a[0], b[0]) && text::less(b[0], c[0]) {
                text::less_is_transitive(a[0], b[0], c[0]);
            }
            text::less_is_total(a[0], c[0]);
        }
    }
}

/// A piece ends inside its path.
pub proof fn piece_end_is_inside(path: Seq<char>, from: int)
    requires
        0 <= from <= path.len(),
    ensures
        from <= piece_end(path, from) <= path.len(),
    decreases path.len() - from,
{
    if from < path.len() && path[from] != '/' {
        piece_end_is_inside(path, from + 1);
    }
}

proof fn piece_end_moves(path: Seq<char>, from: int, at: int)
    requires
        0 <= from <= at <= path.len(),
    ensures
        piece_end(path.skip(from), at - from) == piece_end(path, at) - from,
    decreases path.len() - at,
{
    if at < path.len() && path[at] != '/' {
        piece_end_moves(path, from, at + 1);
    }
}

fn find_piece_end(path: &Vec<char>, from: usize) -> (r: usize)
    requires
        from <= path@.len(),
    ensures
        r == piece_end(path@, from as int),
        from <= r <= path@.len(),
{
    let mut i: usize = from;
    while i < path.len()
        invariant
            from <= i <= path@.len(),
            piece_end(path@, from as int) == piece_end(path@, i as int),
        decreases path@.len() - i,
    {
        if path[i] == '/' {
            return i;
        }
        i += 1;
    }
    i
}

/// The parts of a path.
pub fn path_parts(path: &str) -> (r: Vec<String>)
    ensures
        text::texts(r@) == parts(path@),
{
    let chars = text::chars_of(path);
    let mut list: Vec<String> = Vec::new();
    let first: usize = find_piece_end(&chars, 0);
    let opening = text::string_of(vstd::slice::slice_subrange(chars.as_slice(), 0, first));
    assert(opening@ =~= path@.take(first as int));
    if chars.len() > 0 && chars[0] == '/' {
        list.push("/".to_owned());
    } else if text::same(opening.as_str(), ".") {
        list.push(".".to_owned());
    }
    assert(text::texts(list@) =~= start(path@));
    let mut from: usize = 0;
    assert(path@.skip(0) =~= path@);
    while from < chars.len()
        invariant
            from <= chars@.len(),
            chars@ == path@,
            text::texts(list@) + names(path@.skip(from as int)) == parts(path@),
        decreases chars@.len() - from,
    {
        let ghost rest = path@.skip(from as int);
        let ghost done = text::texts(list@);
        let end: usize = find_piece_end(&chars, from);
        let piece = text::string_of(vstd::slice::slice_subrange(chars.as_slice(), from, end));
        proof {
            piece_end_moves(path@, from as int, from as int);
            assert(rest.take(end - from) =~= piece@);
            if end < chars@.len() {
                assert(rest.skip(end - from + 1) =~= path@.skip(end + 1));
            } else {
                assert(behind_piece(rest) =~= path@.skip(end as int));
            }
        }
        if end > from && !text::same(piece.as_str(), ".") {
            let ghost name = piece@;
            let ghost behind = names(behind_piece(rest));
            list.push(piece);
            assert(text::texts(list@) =~= done.push(name));
            assert(done + (seq![name] + behind) =~= done.push(name) + behind);
            assert(names(rest) == seq![name] + behind);
        } else {
            assert(names(rest) == names(behind_piece(rest)));
        }
        from = if end < chars.len() {
            end + 1
        } else {
            end
        };
    }
    assert(path@.skip(from as int) =~= Seq::<char>::empty());
    assert(text::texts(list@) + Seq::<Seq<char>>::empty() =~= text::texts(list@));
    list
}

fn part_rank(part: &str) -> (r: u8)
    ensures
        r == rank(part@),
{
    if text::same(part, "/") {
        0
    } else if text::same(part, ".") {
        1
    } else if text::same(part, "..") {
        2
    } else {
        3
    }
}

/// Whether path `a` comes before path `b`.
pub fn path_before(a: &str, b: &str) -> (r: bool)
    ensures
        r == before(a@, b@),
{
    let x = path_parts(a);
    let y = path_parts(b);
    let ghost p = parts(a@);
    let ghost q = parts(b@);
    let mut i: usize = 0;
    assert(p.skip(0) =~= p);
    assert(q.skip(0) =~= q);
    while i < x.len() && i < y.len()
        invariant
            i <= x@.len(),
            i <= y@.len(),
            p == parts(a@),
            q == parts(b@),
            text::texts(x@) == p,
            text::texts(y@) == q,
            parts_before(p, q) == parts_before(p.skip(i as int), q.skip(i as int)),
        decreases x@.len() - i,
    {
        assert(p[i as int] == x@[i as int]@);
        assert(q[i as int] == y@[i as int]@);
        assert(p.skip(i as int)[0] == p[i as int]);
        assert(q.skip(i as int)[0] == q[i as int]);
        if !text::same(x[i].as_str(), y[i].as_str()) {
            let left: u8 = part_rank(x[i].as_str());
            let right: u8 = part_rank(y[i].as_str());
            return left < right || (left == right && text::comes_before(
                x[i].as_str(),
                y[i].as_str(),
            ));
        }
        assert(p.skip(i as int).skip(1) =~= p.skip(i + 1));
        assert(q.skip(i as int).skip(1) =~= q.skip(i + 1));
        i += 1;
    }
    assert(p.len() == x@.len());
    assert(q.len() == y@.len());
    i < y.len()
}

} // verus!
