//! Naming a session's directory.

use crate::text::{ascii_alphanumeric, is_ascii_alphanumeric};
use vstd::string::*;
use vstd::prelude::*;

verus! {

/// Where the part of a path after its last so many slashes begins.
pub open spec fn cut(path: Seq<char>, slashes: nat) -> int
    decreases path.len(),
{
    if path.len() == 0 || slashes == 0 {
        path.len() as int
    } else if path.last() == '/' {
        if slashes == 1 {
            path.len() as int
        } else {
            cut(path.drop_last(), (slashes - 1) as nat)
        }
    } else {
        cut(path.drop_last(), slashes)
    }
}

/// A session's object path as a directory name: its last two segments, joined by an underscore,
/// with an underscore for anything that is not a letter or a digit.
pub open spec fn key_of(path: Seq<char>) -> Seq<char> {
    let tail = path.skip(cut(path, 2));
    Seq::new(
        tail.len(),
        |i: int|
            if ascii_alphanumeric(tail[i]) {
                tail[i]
            } else {
                '_'
            },
    )
}

proof fn lemma_cut(path: Seq<char>, slashes: nat, i: int)
    requires
        0 < i <= path.len(),
        slashes > 0,
    ensures
        cut(path.take(i), slashes) == (if path[i - 1] == '/' {
            if slashes == 1 {
                i
            } else {
                cut(path.take(i - 1), (slashes - 1) as nat)
            }
        } else {
            cut(path.take(i - 1), slashes)
        }),
{
    assert(path.take(i).drop_last() =~= path.take(i - 1));
    assert(path.take(i).last() == path[i - 1]);
}

/// A session's object path as a directory name.
///
/// The path is `/org/freedesktop/portal/desktop/session/<token>/<id>`: unique already, but full of
/// slashes. The token is the bus name of whoever opened the session, which is what lets the last
/// two segments tell concurrent sessions apart without nesting directories: see
/// [`no_two_sessions_share_a_key`].
pub fn session_key(path: &str) -> (key: String)
    ensures
        key@ == key_of(path@),
{
    let n = path.unicode_len();
    // Back to the second slash from the end.
    let mut from: usize = n;
    let mut slashes: u8 = 2;
    assert(path@.take(n as int) =~= path@);
    while from > 0 && !(slashes == 1 && path.get_char(from - 1) == '/')
        invariant
            n == path@.len(),
            from <= n,
            slashes == 1 || slashes == 2,
            cut(path@, 2) == cut(path@.take(from as int), slashes as nat),
        ensures
            cut(path@, 2) == from,
            from <= n,
        decreases from,
    {
        proof {
            lemma_cut(path@, slashes as nat, from as int);
        }
        if path.get_char(from - 1) == '/' {
            slashes = 1;
        }
        from -= 1;
    }
    proof {
        if from > 0 {
            lemma_cut(path@, slashes as nat, from as int);
        }
    }
    let ghost tail = path@.skip(cut(path@, 2));
    let mut key = String::new();
    let mut i: usize = from;
    while i < n
        invariant
            n == path@.len(),
            from <= i <= n,
            cut(path@, 2) == from,
            key@ == key_of(path@).take(i - from),
        decreases n - i,
    {
        let c = path.get_char(i);
        if is_ascii_alphanumeric(c) {
            key.push(c);
        } else {
            key.push('_');
        }
        i += 1;
        assert(key@ =~= key_of(path@).take(i - from));
    }
    assert(key_of(path@).take(n - from) =~= key_of(path@));
    key
}

/// A segment of an object path: letters, digits and underscores.
pub open spec fn is_segment(text: Seq<char>) -> bool {
    forall|i: int| 0 <= i < text.len() ==> ascii_alphanumeric(#[trigger] text[i]) || text[i] == '_'
}

/// The bus name of a connection as a segment: two numbers with an underscore between them.
pub open spec fn is_bus_name(text: Seq<char>) -> bool {
    exists|dot: int|
        {
            &&& 0 < dot < text.len() - 1
            &&& #[trigger] text[dot] == '_'
            &&& forall|i: int|
                0 <= i < text.len() && i != dot ==> '0' <= (#[trigger] text[i]) <= '9'
        }
}

/// The object path of a session, below `base`.
pub open spec fn session_path(base: Seq<char>, token: Seq<char>, id: Seq<char>) -> Seq<char> {
    base.push('/') + token.push('/') + id
}

/// How many underscores there are.
pub open spec fn underscores(text: Seq<char>) -> nat
    decreases text.len(),
{
    if text.len() == 0 {
        0
    } else {
        underscores(text.drop_last()) + if text.last() == '_' {
            1nat
        } else {
            0nat
        }
    }
}

/// A segment has no slash to cut at.
proof fn lemma_cut_segment(path: Seq<char>, segment: Seq<char>, slashes: nat)
    requires
        is_segment(segment),
        slashes > 0,
    ensures
        cut(path + segment, slashes) == cut(path, slashes),
    decreases segment.len(),
{
    let whole = path + segment;
    if segment.len() == 0 {
        assert(whole =~= path);
    } else {
        assert(ascii_alphanumeric(segment[segment.len() - 1]) || segment[segment.len() - 1] == '_');
        assert(whole.last() == segment.last());
        assert(whole.drop_last() =~= path + segment.drop_last());
        lemma_cut_segment(path, segment.drop_last(), slashes);
    }
}

/// The key of a session's path is its last two segments and an underscore.
pub proof fn a_key_joins_the_last_two_segments(base: Seq<char>, token: Seq<char>, id: Seq<char>)
    requires
        is_segment(token),
        is_segment(id),
    ensures
        key_of(session_path(base, token, id)) == token.push('_') + id,
{
    let path = session_path(base, token, id);
    let upper = base.push('/') + token;
    assert(path =~= upper.push('/') + id);
    lemma_cut_segment(upper.push('/'), id, 2);
    assert(upper.push('/').last() == '/');
    assert(upper.push('/').drop_last() =~= upper);
    lemma_cut_segment(base.push('/'), token, 1);
    assert(base.push('/').last() == '/');
    assert(cut(path, 2) == base.len() + 1);
    let tail = path.skip(cut(path, 2));
    assert(tail =~= token.push('/') + id);
    let key = token.push('_') + id;
    assert forall|i: int| 0 <= i < key.len() implies key_of(path)[i] == #[trigger] key[i] by {
        if i < token.len() {
            assert(tail[i] == token[i]);
        } else if i > token.len() {
            assert(tail[i] == id[i - token.len() - 1]);
        }
    }
    assert(key_of(path) =~= key);
}

proof fn lemma_underscores_grow(text: Seq<char>, k: int)
    requires
        0 <= k < text.len(),
        text[k] == '_',
    ensures
        underscores(text.take(k)) < underscores(text),
    decreases text.len(),
{
    if k == text.len() - 1 {
        assert(text.take(k) =~= text.drop_last());
    } else {
        lemma_underscores_grow(text.drop_last(), k);
        assert(text.drop_last().take(k) =~= text.take(k));
    }
}

proof fn lemma_no_longer(token: Seq<char>, id: Seq<char>, other: Seq<char>, other_id: Seq<char>)
    requires
        underscores(token) == underscores(other),
        token.push('_') + id == other.push('_') + other_id,
    ensures
        token.len() >= other.len(),
{
    let key = token.push('_') + id;
    let k = token.len() as int;
    if k < other.len() {
        assert(key[k] == '_');
        assert(other[k] == (other.push('_') + other_id)[k]);
        assert(other.take(k) =~= token) by {
            assert forall|i: int| 0 <= i < k implies other[i] == token[i] by {
                assert(key[i] == token[i]);
                assert((other.push('_') + other_id)[i] == other[i]);
            }
        }
        lemma_underscores_grow(other, k);
    }
}

/// Two session paths whose tokens have as many underscores have different keys, whatever the ids
/// are. Where the tokens differ in that, the keys can meet: `a_b/c` and `a/b_c` have the same.
pub proof fn a_key_tells_its_sessions_apart(
    base: Seq<char>,
    token: Seq<char>,
    id: Seq<char>,
    other: Seq<char>,
    other_id: Seq<char>,
)
    requires
        is_segment(token) && is_segment(id),
        is_segment(other) && is_segment(other_id),
        underscores(token) == underscores(other),
        session_path(base, token, id) != session_path(base, other, other_id),
    ensures
        key_of(session_path(base, token, id)) != key_of(session_path(base, other, other_id)),
{
    a_key_joins_the_last_two_segments(base, token, id);
    a_key_joins_the_last_two_segments(base, other, other_id);
    let key = token.push('_') + id;
    let other_key = other.push('_') + other_id;
    if key == other_key {
        lemma_no_longer(token, id, other, other_id);
        lemma_no_longer(other, other_id, token, id);
        let n = token.len() as int;
        assert(key.take(n) =~= token);
        assert(other_key.take(n) =~= other);
        assert(key.skip(n + 1) =~= id);
        assert(other_key.skip(n + 1) =~= other_id);
        assert(session_path(base, token, id) == session_path(base, other, other_id));
    }
}

proof fn lemma_one_underscore(text: Seq<char>, dot: int)
    requires
        dot < text.len(),
        dot >= 0 ==> text[dot] == '_',
        forall|i: int| 0 <= i < text.len() && i != dot ==> '0' <= (#[trigger] text[i]) <= '9',
    ensures
        underscores(text) == if dot >= 0 {
            1nat
        } else {
            0nat
        },
    decreases text.len(),
{
    if text.len() > 0 {
        let front = text.drop_last();
        assert forall|i: int| 0 <= i < front.len() && i != dot implies '0' <= (
        #[trigger] front[i]) <= '9' by {
            assert(front[i] == text[i]);
        }
        if dot == text.len() - 1 {
            lemma_one_underscore(front, -1);
        } else {
            assert(dot >= 0 ==> front[dot] == text[dot]);
            assert('0' <= text[text.len() - 1] <= '9');
            lemma_one_underscore(front, dot);
        }
    }
}

/// No two sessions share a directory: a session's token is the bus name of whoever opened it, and
/// of two different session paths the keys are different.
pub proof fn no_two_sessions_share_a_key(
    base: Seq<char>,
    token: Seq<char>,
    id: Seq<char>,
    other: Seq<char>,
    other_id: Seq<char>,
)
    requires
        is_bus_name(token) && is_segment(id),
        is_bus_name(other) && is_segment(other_id),
        session_path(base, token, id) != session_path(base, other, other_id),
    ensures
        key_of(session_path(base, token, id)) != key_of(session_path(base, other, other_id)),
{
    let dot = choose|dot: int|
        {
            &&& 0 < dot < token.len() - 1
            &&& #[trigger] token[dot] == '_'
            &&& forall|i: int|
                0 <= i < token.len() && i != dot ==> '0' <= (#[trigger] token[i]) <= '9'
        };
    let other_dot = choose|dot: int|
        {
            &&& 0 < dot < other.len() - 1
            &&& #[trigger] other[dot] == '_'
            &&& forall|i: int|
                0 <= i < other.len() && i != dot ==> '0' <= (#[trigger] other[i]) <= '9'
        };
    lemma_one_underscore(token, dot);
    lemma_one_underscore(other, other_dot);
    a_key_tells_its_sessions_apart(base, token, id, other, other_id);
}

} // verus!
