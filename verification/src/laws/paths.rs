//! In which order paths come.
use crate::paths;
use crate::paths::path_before;
use crate::text;
use vstd::prelude::*;

verus! {

/// Whether a path begins with a piece: one without a slash, behind which the path
/// ends or a slash follows.
pub open spec fn begins_with(path: Seq<char>, piece: Seq<char>) -> bool {
    &&& 0 < piece.len() <= path.len()
    &&& forall|i: int| 0 <= i < piece.len() ==> #[trigger] path[i] == piece[i] && piece[i] != '/'
    &&& piece.len() < path.len() ==> path[piece.len() as int] == '/'
}

proof fn the_first_slash_is_found(path: Seq<char>, piece: Seq<char>, from: int)
    requires
        begins_with(path, piece),
        0 <= from <= piece.len(),
    ensures
        paths::piece_end(path, from) == piece.len(),
    decreases piece.len() - from,
{
    if from < piece.len() {
        assert(path[from] == piece[from]);
        the_first_slash_is_found(path, piece, from + 1);
    }
}

proof fn the_first_part(path: Seq<char>, piece: Seq<char>)
    requires
        begins_with(path, piece),
    ensures
        paths::parts(path).len() > 0,
        paths::parts(path)[0] == piece,
        piece != "/"@,
        path[0] != '/',
{
    reveal_strlit("/");
    the_first_slash_is_found(path, piece, 0);
    assert(path[0] == piece[0]);
    assert(path.take(piece.len() as int) =~= piece);
    if piece == "/"@ {
        assert(piece[0] == '/');
    }
    if piece != "."@ {
        let rest = paths::names(paths::behind_piece(path));
        assert(paths::names(path) == seq![piece] + rest);
        assert(paths::parts(path) =~= seq![piece] + rest);
    } else {
        assert(paths::start(path) == seq!["."@]);
    }
}

/// Paths from the root come before all others.
pub proof fn paths_from_the_root_come_first(a: &str, b: &str, piece: Seq<char>, forth: bool, back: bool)
    requires
        call_ensures(path_before, (a, b), forth),
        call_ensures(path_before, (b, a), back),
        a@.len() > 0 && a@[0] == '/',
        begins_with(b@, piece),
    ensures
        forth,
        !back,
{
    the_first_part(b@, piece);
    assert(paths::parts(a@)[0] == "/"@);
    paths::before_is_total(a@, b@);
}

/// Paths from the current directory come before those from the one above, and
/// those before paths that begin with a name; among the last the names decide, as
/// texts are ordered.
pub proof fn first_names_decide(
    a: &str,
    b: &str,
    first: Seq<char>,
    second: Seq<char>,
    forth: bool,
    back: bool,
)
    requires
        call_ensures(path_before, (a, b), forth),
        call_ensures(path_before, (b, a), back),
        begins_with(a@, first),
        begins_with(b@, second),
        first != second,
    ensures
        first == seq!['.'] ==> forth && !back,
        first == seq!['.', '.'] && second != seq!['.'] ==> forth && !back,
        first != seq!['.'] && first != seq!['.', '.'] && second != seq!['.'] && second != seq![
            '.',
            '.',
        ] ==> (forth <==> text::less(first, second)) && (back <==> text::less(second, first)),
{
    reveal_strlit(".");
    reveal_strlit("..");
    assert("."@ =~= seq!['.']);
    assert(".."@ =~= seq!['.', '.']);
    the_first_part(a@, first);
    the_first_part(b@, second);
    paths::before_is_total(a@, b@);
}

/// No path comes before itself, of two paths at most one comes before the other,
/// and what comes before a path comes before all behind it.
pub proof fn paths_are_ordered(a: &str, b: &str, c: &str, ab: bool, ba: bool, bc: bool, ac: bool, aa: bool)
    requires
        call_ensures(path_before, (a, b), ab),
        call_ensures(path_before, (b, a), ba),
        call_ensures(path_before, (b, c), bc),
        call_ensures(path_before, (a, c), ac),
        call_ensures(path_before, (a, a), aa),
    ensures
        !aa,
        !(ab && ba),
        ab && bc ==> ac,
{
    paths::before_is_total(a@, b@);
    paths::before_is_total(a@, a@);
    if ab && bc {
        paths::before_is_transitive(a@, b@, c@);
    }
}

} // verus!
