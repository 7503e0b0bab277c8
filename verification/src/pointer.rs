//! JSON pointers: the text form of a path into a JSON tree.

use crate::error::{CanError, Failure};
use crate::text::{chars_of, string_of};
use vstd::prelude::*;

verus! {

/// The pieces of `s` between the characters `sep`.
pub open spec fn split(s: Seq<char>, sep: char) -> Seq<Seq<char>>
    decreases s.len(),
{
    if s.len() == 0 {
        seq![Seq::<char>::empty()]
    } else {
        let before = split(s.drop_last(), sep);
        if s.last() == sep {
            before.push(Seq::<char>::empty())
        } else {
            before.drop_last().push(before.last().push(s.last()))
        }
    }
}

/// `s` with `by` in place of each `first` that `second` follows, from left to
/// right.
pub open spec fn replaced(s: Seq<char>, first: char, second: char, by: char) -> Seq<char>
    decreases s.len(),
{
    if s.len() == 0 {
        s
    } else if s.len() >= 2 && s[0] == first && s[1] == second {
        seq![by] + replaced(s.skip(2), first, second, by)
    } else {
        seq![s[0]] + replaced(s.skip(1), first, second, by)
    }
}

/// The key that a piece of a pointer stands for: `~1` is a slash, `~0` a
/// tilde.
pub open spec fn unescaped(piece: Seq<char>) -> Seq<char> {
    replaced(replaced(piece, '~', '1', '/'), '~', '0', '~')
}

/// The keys that a pointer names one after the other, or `None` where it is
/// neither empty nor starts with a slash.
pub open spec fn steps(pointer: Seq<char>) -> Option<Seq<Seq<char>>> {
    if pointer.len() == 0 {
        Some(Seq::empty())
    } else if pointer[0] != '/' {
        None
    } else {
        Some(split(pointer.skip(1), '/').map_values(|piece: Seq<char>| unescaped(piece)))
    }
}

/// The keys that a pointer names, where none of them may be empty.
pub open spec fn tokens(pointer: Seq<char>) -> Result<Seq<Seq<char>>, Failure<Seq<char>>> {
    match steps(pointer) {
        None => Err(Failure::MissingSlash(pointer)),
        Some(keys) => if keys.contains(Seq::empty()) {
            Err(Failure::EmptyToken(pointer))
        } else {
            Ok(keys)
        },
    }
}

/// Why a pointer cannot name a secret, if it cannot.
pub open spec fn refusal(pointer: Seq<char>) -> Option<Failure<Seq<char>>> {
    if pointer.len() == 0 || pointer == "/"@ {
        Some(Failure::RootPointer)
    } else if pointer[0] != '/' {
        Some(Failure::MissingSlash(pointer))
    } else {
        None
    }
}

/// The texts that strings hold.
pub open spec fn texts(strings: Seq<String>) -> Seq<Seq<char>> {
    strings.map_values(|s: String| s@)
}

/// Accepts a pointer that can name a secret: one that starts with a slash and
/// goes on.
pub fn ensure_non_root_pointer(pointer: &str) -> (result: Result<(), CanError>)
    ensures
        match refusal(pointer@) {
            None => result is Ok,
            Some(e) => result is Err && result->Err_0@ == e,
        },
{
    let chars = chars_of(pointer);
    proof {
        reveal_strlit("/");
        if pointer@.len() == 1 && pointer@[0] == '/' {
            assert(pointer@ =~= "/"@);
        }
    }
    if chars.len() == 0 || (chars.len() == 1 && chars[0] == '/') {
        return Err(Failure::RootPointer);
    }
    if chars[0] != '/' {
        return Err(Failure::MissingSlash(pointer.to_owned()));
    }
    Ok(())
}

fn replace_pair(chars: &Vec<char>, first: char, second: char, by: char) -> (out: Vec<char>)
    ensures
        out@ == replaced(chars@, first, second, by),
{
    let mut out: Vec<char> = Vec::new();
    let mut i: usize = 0;
    assert(chars@.skip(0) =~= chars@);
    while i < chars.len()
        invariant
            i <= chars@.len(),
            replaced(chars@, first, second, by) == out@ + replaced(
                chars@.skip(i as int),
                first,
                second,
                by,
            ),
        decreases chars@.len() - i,
    {
        let ghost rest = chars@.skip(i as int);
        let ghost before = out@;
        if chars.len() - i >= 2 && chars[i] == first && chars[i + 1] == second {
            out.push(by);
            i = i + 2;
            assert(rest.skip(2) =~= chars@.skip(i as int));
            assert(out@ =~= before + seq![by]);
        } else {
            out.push(chars[i]);
            i = i + 1;
            assert(rest.skip(1) =~= chars@.skip(i as int));
            assert(out@ =~= before + seq![rest[0]]);
        }
        assert(replaced(chars@, first, second, by) =~= out@ + replaced(
            chars@.skip(i as int),
            first,
            second,
            by,
        ));
    }
    assert(replaced(chars@, first, second, by) =~= out@);
    out
}

fn unescape(piece: &Vec<char>) -> (key: String)
    ensures
        key@ == unescaped(piece@),
{
    let slashes = replace_pair(piece, '~', '1', '/');
    let both = replace_pair(&slashes, '~', '0', '~');
    string_of(&both)
}

proof fn lemma_split_nonempty(s: Seq<char>, sep: char)
    ensures
        split(s, sep).len() > 0,
    decreases s.len(),
{
    if s.len() > 0 {
        lemma_split_nonempty(s.drop_last(), sep);
    }
}

/// The keys that `pointer` names one after the other.
pub(crate) fn pointer_steps(pointer: &str) -> (keys: Option<Vec<String>>)
    ensures
        match steps(pointer@) {
            Some(names) => keys is Some && texts(keys->0@) == names,
            None => keys is None,
        },
{
    let chars = chars_of(pointer);
    if chars.len() == 0 {
        let keys: Vec<String> = Vec::new();
        assert(texts(keys@) =~= Seq::empty());
        return Some(keys);
    }
    if chars[0] != '/' {
        return None;
    }
    let ghost body = pointer@.skip(1);
    let ghost named = |piece: Seq<char>| unescaped(piece);
    let mut keys: Vec<String> = Vec::new();
    let mut piece: Vec<char> = Vec::new();
    let mut i: usize = 1;
    assert(body.take(0) =~= Seq::empty());
    assert(split(body.take(0), '/').drop_last().map_values(named) =~= texts(keys@));
    assert(piece@ =~= split(body.take(0), '/').last());
    while i < chars.len()
        invariant
            1 <= i <= chars@.len(),
            chars@ == pointer@,
            body == pointer@.skip(1),
            named == (|piece: Seq<char>| unescaped(piece)),
            texts(keys@) == split(body.take(i - 1), '/').drop_last().map_values(named),
            piece@ == split(body.take(i - 1), '/').last(),
        decreases chars@.len() - i,
    {
        let ghost before = split(body.take(i - 1), '/');
        proof {
            lemma_split_nonempty(body.take(i - 1), '/');
            assert(body.take(i as int).drop_last() =~= body.take(i - 1));
            assert(body.take(i as int).last() == chars@[i as int]);
        }
        let ghost done = keys@;
        if chars[i] == '/' {
            let key = unescape(&piece);
            keys.push(key);
            piece = Vec::new();
            proof {
                let now = split(body.take(i as int), '/');
                assert(now.drop_last() =~= before);
                assert(before.map_values(named) =~= before.drop_last().map_values(named).push(
                    named(before.last()),
                ));
                assert(texts(keys@) =~= texts(done).push(key@));
                assert(piece@ =~= now.last());
            }
        } else {
            piece.push(chars[i]);
            proof {
                let now = split(body.take(i as int), '/');
                assert(now.drop_last() =~= before.drop_last());
            }
        }
        i = i + 1;
    }
    let key = unescape(&piece);
    proof {
        lemma_split_nonempty(body, '/');
        assert(body.take(i - 1) =~= body);
        let all = split(body, '/');
        assert(all.map_values(named) =~= all.drop_last().map_values(named).push(
            named(all.last()),
        ));
        assert(texts(keys@.push(key)) =~= texts(keys@).push(key@));
    }
    keys.push(key);
    Some(keys)
}

/// The keys that `pointer` names one after the other, none of them empty.
pub fn decode_pointer_tokens(pointer: &str) -> (keys: Result<Vec<String>, CanError>)
    ensures
        match tokens(pointer@) {
            Ok(names) => keys is Ok && texts(keys->Ok_0@) == names,
            Err(e) => keys is Err && keys->Err_0@ == e,
        },
{
    match pointer_steps(pointer) {
        None => Err(Failure::MissingSlash(pointer.to_owned())),
        Some(keys) => {
            for i in 0..keys.len()
                invariant
                    steps(pointer@) == Some(texts(keys@)),
                    forall|j: int| 0 <= j < i ==> (#[trigger] keys@[j])@.len() > 0,
            {
                if keys[i].as_str().is_empty() {
                    assert(texts(keys@)[i as int] =~= Seq::empty());
                    return Err(Failure::EmptyToken(pointer.to_owned()));
                }
            }
            assert(!texts(keys@).contains(Seq::empty())) by {
                if texts(keys@).contains(Seq::empty()) {
                    let j = choose|j: int|
                        0 <= j < texts(keys@).len() && texts(keys@)[j] == Seq::<char>::empty();
                    assert(keys@[j]@.len() > 0);
                }
            }
            Ok(keys)
        },
    }
}

/// The piece of a pointer that stands for `key`: `~0` for each tilde, `~1` for
/// each slash.
pub open spec fn escaped(key: Seq<char>) -> Seq<char>
    decreases key.len(),
{
    if key.len() == 0 {
        key
    } else if key[0] == '~' {
        seq!['~', '0'] + escaped(key.skip(1))
    } else if key[0] == '/' {
        seq!['~', '1'] + escaped(key.skip(1))
    } else {
        seq![key[0]] + escaped(key.skip(1))
    }
}

/// The pointer that names `keys` one after the other.
pub open spec fn pointer_to(keys: Seq<Seq<char>>) -> Seq<char>
    decreases keys.len(),
{
    if keys.len() == 0 {
        Seq::empty()
    } else {
        pointer_to(keys.drop_last()) + seq!['/'] + escaped(keys.last())
    }
}

spec fn tildes_escaped(key: Seq<char>) -> Seq<char>
    decreases key.len(),
{
    if key.len() == 0 {
        key
    } else if key[0] == '~' {
        seq!['~', '0'] + tildes_escaped(key.skip(1))
    } else {
        seq![key[0]] + tildes_escaped(key.skip(1))
    }
}

proof fn lemma_replaced_other(s: Seq<char>, head: char, first: char, second: char, by: char)
    requires
        s.len() > 0,
        s[0] == head,
        head != first || (s.len() >= 2 && s[1] != second),
    ensures
        replaced(s, first, second, by) == seq![head] + replaced(s.skip(1), first, second, by),
{
}

proof fn lemma_unescape_slashes(key: Seq<char>)
    ensures
        replaced(escaped(key), '~', '1', '/') == tildes_escaped(key),
        !escaped(key).contains('/'),
    decreases key.len(),
{
    if key.len() > 0 {
        let rest = key.skip(1);
        let s = escaped(key);
        lemma_unescape_slashes(rest);
        if key[0] == '~' {
            lemma_replaced_other(s, '~', '~', '1', '/');
            lemma_replaced_other(s.skip(1), '0', '~', '1', '/');
            assert(s.skip(1).skip(1) =~= escaped(rest));
            assert(seq!['~'] + (seq!['0'] + tildes_escaped(rest)) =~= seq!['~', '0']
                + tildes_escaped(rest));
        } else if key[0] == '/' {
            assert(s.skip(2) =~= escaped(rest));
        } else {
            lemma_replaced_other(s, key[0], '~', '1', '/');
            assert(s.skip(1) =~= escaped(rest));
        }
        assert forall|i: int| 0 <= i < s.len() implies s[i] != '/' by {
            let n = s.len() - escaped(rest).len();
            if i >= n {
                assert(s[i] == escaped(rest)[i - n]);
                assert(escaped(rest).contains(escaped(rest)[i - n]));
            }
        }
    }
}

proof fn lemma_unescape_tildes(key: Seq<char>)
    ensures
        replaced(tildes_escaped(key), '~', '0', '~') == key,
    decreases key.len(),
{
    if key.len() > 0 {
        let rest = key.skip(1);
        let s = tildes_escaped(key);
        lemma_unescape_tildes(rest);
        if key[0] == '~' {
            assert(s.skip(2) =~= tildes_escaped(rest));
        } else {
            lemma_replaced_other(s, key[0], '~', '0', '~');
            assert(s.skip(1) =~= tildes_escaped(rest));
        }
        assert(seq![key[0]] + rest =~= key);
    }
}

/// A key is read back from the piece of a pointer that stands for it.
pub proof fn law_key_roundtrip(key: Seq<char>)
    ensures
        unescaped(escaped(key)) == key,
        !escaped(key).contains('/'),
{
    lemma_unescape_slashes(key);
    lemma_unescape_tildes(key);
}

proof fn lemma_split_join(a: Seq<char>, piece: Seq<char>, sep: char)
    requires
        !piece.contains(sep),
    ensures
        split(a + seq![sep] + piece, sep) == split(a, sep).push(piece),
    decreases piece.len(),
{
    let s = a + seq![sep] + piece;
    if piece.len() == 0 {
        assert(s.drop_last() =~= a);
        assert(piece =~= Seq::empty());
    } else {
        assert(piece.contains(piece.last()));
        assert forall|i: int| 0 <= i < piece.len() - 1 implies piece.drop_last()[i] != sep by {
            assert(piece.contains(piece[i]));
        }
        lemma_split_join(a, piece.drop_last(), sep);
        assert(s.drop_last() =~= a + seq![sep] + piece.drop_last());
        assert(piece.drop_last().push(piece.last()) =~= piece);
        assert(split(s, sep) =~= split(a, sep).push(piece));
    }
}

proof fn lemma_split_piece(piece: Seq<char>, sep: char)
    requires
        !piece.contains(sep),
    ensures
        split(piece, sep) == seq![piece],
    decreases piece.len(),
{
    if piece.len() > 0 {
        assert(piece.contains(piece.last()));
        assert forall|i: int| 0 <= i < piece.len() - 1 implies piece.drop_last()[i] != sep by {
            assert(piece.contains(piece[i]));
        }
        lemma_split_piece(piece.drop_last(), sep);
        assert(piece.drop_last().push(piece.last()) =~= piece);
        assert(split(piece, sep) =~= seq![piece]);
    } else {
        assert(piece =~= Seq::empty());
    }
}

/// Every path has a pointer that names exactly its keys.
pub proof fn law_path_roundtrip(keys: Seq<Seq<char>>)
    ensures
        steps(pointer_to(keys)) == Some(keys),
    decreases keys.len(),
{
    let named = |piece: Seq<char>| unescaped(piece);
    if keys.len() == 0 {
        assert(keys =~= Seq::empty());
    } else {
        let front = keys.drop_last();
        let last = keys.last();
        law_key_roundtrip(last);
        law_path_roundtrip(front);
        let p = pointer_to(keys);
        if front.len() == 0 {
            assert(p.skip(1) =~= escaped(last));
            lemma_split_piece(escaped(last), '/');
            assert(seq![escaped(last)].map_values(named) =~= keys);
        } else {
            lemma_pointer_starts(front);
            let body = pointer_to(front).skip(1);
            assert(p.skip(1) =~= body + seq!['/'] + escaped(last));
            lemma_split_join(body, escaped(last), '/');
            let pieces = split(body, '/');
            assert(pieces.push(escaped(last)).map_values(named) =~= pieces.map_values(named).push(
                named(escaped(last)),
            ));
            assert(front.push(last) =~= keys);
        }
    }
}

proof fn lemma_pointer_starts(keys: Seq<Seq<char>>)
    requires
        keys.len() > 0,
    ensures
        pointer_to(keys).len() > 0,
        pointer_to(keys)[0] == '/',
    decreases keys.len(),
{
    if keys.len() > 1 {
        lemma_pointer_starts(keys.drop_last());
    } else {
        assert(pointer_to(keys.drop_last()) =~= Seq::empty());
    }
}

/// Every path of keys that are not empty has a pointer that can name a secret
/// and is read as those keys.
pub proof fn law_every_path_can_be_named(keys: Seq<Seq<char>>)
    requires
        keys.len() > 0,
        !keys.contains(Seq::empty()),
    ensures
        refusal(pointer_to(keys)) is None,
        tokens(pointer_to(keys)) == Ok::<Seq<Seq<char>>, Failure<Seq<char>>>(keys),
{
    law_path_roundtrip(keys);
    lemma_pointer_starts(keys);
    let p = pointer_to(keys);
    reveal_strlit("/");
    if p == "/"@ {
        law_path_roundtrip(keys);
        assert(p.skip(1) =~= Seq::empty());
        assert(split(p.skip(1), '/') =~= seq![Seq::<char>::empty()]);
        assert(replaced(Seq::empty(), '~', '1', '/') =~= Seq::<char>::empty());
        assert(steps(p)->0[0] =~= Seq::<char>::empty());
        assert(keys[0] == Seq::<char>::empty());
    }
}

/// A pointer that is not empty and whose keys are not empty has at least one
/// key.
pub proof fn lemma_tokens_nonempty(pointer: Seq<char>)
    requires
        pointer.len() > 0,
        tokens(pointer) is Ok,
    ensures
        tokens(pointer)->Ok_0.len() > 0,
{
    lemma_split_nonempty(pointer.skip(1), '/');
}

/// A pointer made of a slash before each piece.
pub open spec fn slashed(pieces: Seq<Seq<char>>) -> Seq<char>
    decreases pieces.len(),
{
    if pieces.len() == 0 {
        Seq::empty()
    } else {
        slashed(pieces.drop_last()) + seq!['/'] + pieces.last()
    }
}

/// Reading a piece goes from left to right: `~1` is a slash, `~0` a tilde, and
/// every other character stands for itself, a lone tilde as well.
pub proof fn law_unescaping(piece: Seq<char>)
    ensures
        unescaped(Seq::empty()) == Seq::<char>::empty(),
        unescaped(seq!['~', '1'] + piece) == seq!['/'] + unescaped(piece),
        unescaped(seq!['~', '0'] + piece) == seq!['~'] + unescaped(piece),
        forall|c: char|
            c != '~' ==> #[trigger] unescaped(seq![c] + piece) == seq![c] + unescaped(piece),
        (piece.len() == 0 || (piece[0] != '0' && piece[0] != '1')) ==> unescaped(seq!['~'] + piece)
            == seq!['~'] + unescaped(piece),
{
    let empty = Seq::<char>::empty();
    assert(replaced(empty, '~', '1', '/') =~= empty);
    let first = replaced(piece, '~', '1', '/');
    let s = seq!['~', '1'] + piece;
    assert(s.skip(2) =~= piece);
    assert(replaced(s, '~', '1', '/') == seq!['/'] + first);
    assert((seq!['/'] + first).skip(1) =~= first);
    let t = seq!['~', '0'] + piece;
    assert(t.skip(1) =~= seq!['0'] + piece);
    assert((seq!['0'] + piece).skip(1) =~= piece);
    assert(replaced(seq!['0'] + piece, '~', '1', '/') == seq!['0'] + first);
    assert(replaced(t, '~', '1', '/') =~= seq!['~', '0'] + first);
    assert((seq!['~', '0'] + first).skip(2) =~= first);
    assert forall|c: char| c != '~' implies #[trigger] unescaped(seq![c] + piece) == seq![c]
        + unescaped(piece) by {
        let u = seq![c] + piece;
        assert(u.skip(1) =~= piece);
        assert(replaced(u, '~', '1', '/') == seq![c] + first);
        assert((seq![c] + first).skip(1) =~= first);
    }
    if piece.len() == 0 || (piece[0] != '0' && piece[0] != '1') {
        let u = seq!['~'] + piece;
        assert(u.skip(1) =~= piece);
        assert(replaced(u, '~', '1', '/') == seq!['~'] + first);
        let v = seq!['~'] + first;
        assert(v.skip(1) =~= first);
        assert(first.len() > 0 ==> first[0] != '0') by {
            if piece.len() > 0 {
                assert(first[0] == '/' || first[0] == piece[0]);
            }
        }
        assert(replaced(v, '~', '0', '~') == seq!['~'] + replaced(first, '~', '0', '~'));
    }
}

/// The keys of a pointer are what its pieces stand for, one for each slash.
pub proof fn law_keys_are_pieces(pieces: Seq<Seq<char>>)
    requires
        forall|i: int| 0 <= i < pieces.len() ==> !(#[trigger] pieces[i]).contains('/'),
    ensures
        steps(slashed(pieces)) is Some,
        steps(slashed(pieces))->0.len() == pieces.len(),
        forall|i: int|
            0 <= i < pieces.len() ==> #[trigger] steps(slashed(pieces))->0[i] == unescaped(
                pieces[i],
            ),
{
    if pieces.len() > 0 {
        lemma_split_slashed(pieces);
    }
}

proof fn lemma_split_slashed(pieces: Seq<Seq<char>>)
    requires
        pieces.len() > 0,
        forall|i: int| 0 <= i < pieces.len() ==> !(#[trigger] pieces[i]).contains('/'),
    ensures
        slashed(pieces).len() > 0,
        slashed(pieces)[0] == '/',
        split(slashed(pieces).skip(1), '/') == pieces,
    decreases pieces.len(),
{
    let front = pieces.drop_last();
    let last = pieces.last();
    assert(last == pieces[pieces.len() - 1]);
    let p = slashed(pieces);
    if front.len() == 0 {
        assert(slashed(front) =~= Seq::empty());
        assert(p.skip(1) =~= last);
        lemma_split_piece(last, '/');
        assert(seq![last] =~= pieces);
    } else {
        assert forall|i: int| 0 <= i < front.len() implies !(#[trigger] front[i]).contains('/') by {
            assert(front[i] == pieces[i]);
        }
        lemma_split_slashed(front);
        let body = slashed(front).skip(1);
        assert(p.skip(1) =~= body + seq!['/'] + last);
        lemma_split_join(body, last, '/');
        assert(front.push(last) =~= pieces);
    }
}

/// Every pointer that starts with a slash is made of a slash before each of
/// some pieces.
pub proof fn law_pointers_have_pieces(pointer: Seq<char>) -> (pieces: Seq<Seq<char>>)
    requires
        pointer.len() > 0,
        pointer[0] == '/',
    ensures
        slashed(pieces) == pointer,
        forall|i: int| 0 <= i < pieces.len() ==> !(#[trigger] pieces[i]).contains('/'),
{
    let pieces = split(pointer.skip(1), '/');
    lemma_split_rejoins(pointer.skip(1));
    assert(seq!['/'] + pointer.skip(1) =~= pointer);
    pieces
}

proof fn lemma_split_rejoins(s: Seq<char>)
    ensures
        slashed(split(s, '/')) == seq!['/'] + s,
        split(s, '/').len() > 0,
        forall|i: int|
            0 <= i < split(s, '/').len() ==> !(#[trigger] split(s, '/')[i]).contains('/'),
    decreases s.len(),
{
    let pieces = split(s, '/');
    if s.len() == 0 {
        assert(pieces.drop_last() =~= Seq::empty());
        assert(slashed(pieces.drop_last()) =~= Seq::empty());
        assert(slashed(pieces) =~= seq!['/'] + s);
    } else {
        let before = split(s.drop_last(), '/');
        lemma_split_rejoins(s.drop_last());
        if s.last() == '/' {
            assert(pieces.drop_last() =~= before);
            assert(slashed(pieces) =~= seq!['/'] + s);
        } else {
            assert(pieces.drop_last() =~= before.drop_last());
            assert(pieces.last() == before.last().push(s.last()));
            let joined = slashed(before.drop_last()) + seq!['/'];
            assert(slashed(before) == joined + before.last());
            assert(joined + before.last().push(s.last()) =~= (joined + before.last()).push(
                s.last(),
            ));
            assert((seq!['/'] + s.drop_last()).push(s.last()) =~= seq!['/'] + s);
            assert forall|i: int| 0 <= i < pieces.len() implies !(#[trigger] pieces[i]).contains(
                '/',
            ) by {
                if i < pieces.len() - 1 {
                    assert(pieces[i] == before[i]);
                } else {
                    let front = before[before.len() - 1];
                    assert(!front.contains('/'));
                    assert(pieces[i] == front.push(s.last()));
                    if pieces[i].contains('/') {
                        let j = choose|j: int| 0 <= j < pieces[i].len() && pieces[i][j] == '/';
                        assert(j < front.len());
                        assert(front[j] == '/');
                        assert(front.contains('/'));
                    }
                }
            }
        }
    }
}

/// A pointer has keys unless it is neither empty nor starts with a slash; the
/// empty one has none.
pub proof fn law_steps(pointer: Seq<char>)
    ensures
        steps(pointer) is None <==> pointer.len() > 0 && pointer[0] != '/',
        pointer.len() == 0 ==> steps(pointer) == Some(Seq::<Seq<char>>::empty()),
        pointer.len() > 0 && pointer[0] == '/' ==> steps(pointer)->0.len() > 0,
{
    if pointer.len() > 0 && pointer[0] == '/' {
        lemma_split_nonempty(pointer.skip(1), '/');
    }
}

/// The tokens are the keys, where none is empty; else the pointer is quoted in
/// the failure.
pub proof fn law_tokens(pointer: Seq<char>)
    ensures
        match tokens(pointer) {
            Ok(keys) => steps(pointer) == Some(keys) && forall|i: int|
                0 <= i < keys.len() ==> (#[trigger] keys[i]).len() > 0,
            Err(e) => {
                ||| e == Failure::MissingSlash(pointer) && steps(pointer) is None
                ||| e == Failure::EmptyToken(pointer) && steps(pointer) is Some && exists|i: int|
                    0 <= i < steps(pointer)->0.len() && (#[trigger] steps(pointer)->0[i]).len() == 0
            },
        },
{
    if tokens(pointer) is Ok {
        let keys = tokens(pointer)->Ok_0;
        assert forall|i: int| 0 <= i < keys.len() implies (#[trigger] keys[i]).len() > 0 by {
            if keys[i].len() == 0 {
                assert(keys[i] =~= Seq::empty());
                assert(keys.contains(Seq::empty()));
            }
        }
    } else if steps(pointer) is Some {
        let keys = steps(pointer)->0;
        let i = choose|i: int| 0 <= i < keys.len() && keys[i] == Seq::<char>::empty();
        assert(keys[i].len() == 0);
    }
}

/// A pointer cannot name a secret exactly where it is empty, the lone slash, or
/// does not start with a slash.
pub proof fn law_refusal(pointer: Seq<char>)
    ensures
        refusal(pointer) is None <==> pointer.len() > 0 && pointer != seq!['/'] && pointer[0]
            == '/',
        refusal(pointer) is None <==> pointer.len() > 1 && pointer[0] == '/',
        pointer.len() == 0 || pointer == seq!['/'] ==> refusal(pointer) == Some(
            Failure::<Seq<char>>::RootPointer,
        ),
        pointer.len() > 0 && pointer[0] != '/' ==> refusal(pointer) == Some(
            Failure::MissingSlash(pointer),
        ),
{
    reveal_strlit("/");
    assert("/"@ =~= seq!['/']);
    if pointer.len() == 1 && pointer[0] == '/' {
        assert(pointer =~= seq!['/']);
    }
}

/// The texts of strings are theirs, one for each.
pub proof fn law_texts(strings: Seq<String>)
    ensures
        texts(strings).len() == strings.len(),
        forall|i: int| 0 <= i < strings.len() ==> #[trigger] texts(strings)[i] == strings[i]@,
{
}

} // verus!
