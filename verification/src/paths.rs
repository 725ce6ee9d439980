//! File system paths, compared by their components.

use crate::text::{
    cat, cat3, chars, cut_all, law_cut_again, law_cut_all, law_cut_parts, split, str_eq, texts,
};
use vstd::prelude::*;

verus! {

/// The pieces that name something: neither empty nor ".".
pub open spec fn names(pieces: Seq<Seq<char>>) -> Seq<Seq<char>>
    decreases pieces.len(),
{
    if pieces.len() == 0 {
        Seq::empty()
    } else if pieces.last().len() == 0 || pieces.last() == "."@ {
        names(pieces.drop_last())
    } else {
        names(pieces.drop_last()).push(pieces.last())
    }
}

/// The components of a path. "/" at the front is a component, and so is "." there;
/// elsewhere repeated slashes, a slash at the end and "." do not count.
pub open spec fn components(path: Seq<char>) -> Seq<Seq<char>> {
    let pieces = cut_all(path, '/');
    if is_absolute(path) {
        seq!["/"@] + names(pieces)
    } else if pieces[0] == "."@ {
        seq!["."@] + names(pieces)
    } else {
        names(pieces)
    }
}

/// Whether a path is the root directory.
pub open spec fn is_root(path: Seq<char>) -> bool {
    components(path) == seq!["/"@]
}

/// Whether a path is `base` or lies below it.
pub open spec fn is_within(path: Seq<char>, base: Seq<char>) -> bool {
    components(base).is_prefix_of(components(path))
}

/// A path lies within itself, and within what its base lies within.
pub proof fn law_within(a: Seq<char>, b: Seq<char>, c: Seq<char>)
    ensures
        is_within(a, a),
        is_within(a, b) && is_within(b, c) ==> is_within(a, c),
{
    if is_within(a, b) && is_within(b, c) {
        let x = components(a);
        let y = components(b);
        let z = components(c);
        assert(z =~= x.subrange(0, z.len() as int)) by {
            assert(y =~= x.subrange(0, y.len() as int));
            assert(z =~= y.subrange(0, z.len() as int));
        }
    }
}

/// Whether a path starts at the root.
pub open spec fn is_absolute(path: Seq<char>) -> bool {
    path.len() > 0 && path[0] == '/'
}

/// Whether a path starts at the root.
pub fn is_absolute_path(path: &str) -> (r: bool)
    ensures
        r == is_absolute(path@),
{
    for c in it: path.chars()
        invariant
            it.seq() == path@,
            it.index() == 0,
    {
        return c == '/';
    }
    false
}

/// The components of a path, in order.
pub fn path_components(path: &str) -> (r: Vec<String>)
    ensures
        texts(r@) == components(path@),
{
    let pieces = split(path, '/');
    let mut r: Vec<String> = Vec::new();
    let ghost mut head: Seq<Seq<char>> = Seq::empty();
    assert(texts(pieces@).len() >= 1);
    if is_absolute_path(path) {
        r.push("/".to_owned());
        proof {
            head = seq!["/"@];
        }
    } else if str_eq(pieces[0].as_str(), ".") {
        r.push(".".to_owned());
        proof {
            head = seq!["."@];
        }
    }
    let ghost all = cut_all(path@, '/');
    let mut i: usize = 0;
    assert(texts(r@) =~= head + names(all.take(0)));
    while i < pieces.len()
        invariant
            i <= pieces@.len(),
            texts(pieces@) == all,
            texts(r@) == head + names(all.take(i as int)),
        decreases pieces@.len() - i,
    {
        let piece = &pieces[i];
        let ghost before = all.take(i as int);
        let ghost after = all.take(i as int + 1);
        assert(after.drop_last() =~= before);
        assert(after.last() == texts(pieces@)[i as int]);
        if !piece.as_str().is_empty() && !str_eq(piece.as_str(), ".") {
            let ghost was = r@;
            r.push(piece.clone());
            assert(texts(r@) =~= texts(was).push(piece@));
            assert(texts(r@) =~= head + names(after));
        }
        i += 1;
    }
    assert(all.take(all.len() as int) =~= all);
    r
}

fn begins(a: &Vec<String>, b: &Vec<String>) -> (r: bool)
    ensures
        r == texts(b@).is_prefix_of(texts(a@)),
{
    if b.len() > a.len() {
        return false;
    }
    let mut i: usize = 0;
    while i < b.len()
        invariant
            i <= b@.len() <= a@.len(),
            forall|j: int| 0 <= j < i ==> texts(a@)[j] == texts(b@)[j],
        decreases b@.len() - i,
    {
        if !str_eq(a[i].as_str(), b[i].as_str()) {
            assert(texts(a@)[i as int] != texts(b@)[i as int]);
            return false;
        }
        i += 1;
    }
    assert(texts(b@) =~= texts(a@).subrange(0, b@.len() as int));
    true
}

/// A path with one more component at its end.
pub open spec fn joined(base: Seq<char>, name: Seq<char>) -> Seq<char> {
    if base.len() == 0 {
        name
    } else if base.last() == '/' {
        base + name
    } else {
        base + "/"@ + name
    }
}

/// A path with one more component at its end.
pub fn join(base: &str, name: &str) -> (r: String)
    ensures
        r@ == joined(base@, name@),
{
    let cs = chars(base);
    if cs.len() == 0 {
        name.to_owned()
    } else if cs[cs.len() - 1] == '/' {
        cat(base, name)
    } else {
        cat3(base, "/", name)
    }
}

/// Whether a path is the root directory.
pub fn is_root_path(path: &str) -> (r: bool)
    ensures
        r == is_root(path@),
{
    let c = path_components(path);
    proof {
        let all = components(path@);
        assert(texts(c@).len() == c@.len());
        if all.len() == 1 && all[0] == "/"@ {
            assert(all =~= seq!["/"@]);
        }
    }
    c.len() == 1 && str_eq(c[0].as_str(), "/")
}

/// Whether a path is `base` or lies below it.
pub fn path_within(path: &str, base: &str) -> (r: bool)
    ensures
        r == is_within(path@, base@),
{
    begins(&path_components(path), &path_components(base))
}

proof fn lemma_names(pieces: Seq<Seq<char>>, i: int)
    ensures
        names(pieces).len() <= pieces.len(),
        0 <= i < names(pieces).len() ==> names(pieces)[i].len() > 0 && names(pieces)[i] != "."@
            && pieces.contains(names(pieces)[i]),
        names(pieces).len() == 0 <==> forall|k: int|
            0 <= k < pieces.len() ==> (#[trigger] pieces[k]).len() == 0 || pieces[k] == "."@,
    decreases pieces.len(),
{
    if pieces.len() > 0 {
        let init = pieces.drop_last();
        lemma_names(init, i);
        assert(pieces[pieces.len() - 1] == pieces.last());
        if 0 <= i < names(init).len() {
            let k = choose|k: int| 0 <= k < init.len() && init[k] == names(init)[i];
            assert(pieces[k] == names(init)[i]);
        }
        if names(pieces).len() == 0 {
            assert forall|k: int| 0 <= k < pieces.len() implies (#[trigger] pieces[k]).len() == 0
                || pieces[k] == "."@ by {
                if k < init.len() {
                    assert(init[k] == pieces[k]);
                }
            }
        }
        if forall|k: int|
            0 <= k < pieces.len() ==> (#[trigger] pieces[k]).len() == 0 || pieces[k] == "."@ {
            assert forall|k: int| 0 <= k < init.len() implies (#[trigger] init[k]).len() == 0
                || init[k] == "."@ by {
                assert(pieces[k] == init[k]);
            }
        }
    }
}

proof fn lemma_names_sum(a: Seq<Seq<char>>, b: Seq<Seq<char>>)
    ensures
        names(a + b) == names(a) + names(b),
    decreases b.len(),
{
    if b.len() == 0 {
        assert(a + b =~= a);
        assert(names(a) + names(b) =~= names(a));
    } else {
        lemma_names_sum(a, b.drop_last());
        assert((a + b).drop_last() =~= a + b.drop_last());
        assert((a + b).last() == b.last());
        assert(names(a + b) =~= names(a) + names(b));
    }
}

/// A component is what stands between two slashes and names something; only the first can
/// be the root or ".".
pub proof fn law_components_name_something(path: Seq<char>, i: int)
    requires
        0 <= i < components(path).len(),
    ensures
        i > 0 ==> components(path)[i].len() > 0 && components(path)[i] != "."@
            && !components(path)[i].contains('/'),
        is_absolute(path) <==> components(path).len() > 0 && components(path)[0] == "/"@,
{
    let pieces = cut_all(path, '/');
    law_cut_all(path, '/');
    reveal_strlit("/");
    reveal_strlit(".");
    let head: int = if is_absolute(path) || pieces[0] == "."@ {
        1
    } else {
        0
    };
    assert(components(path).len() == head + names(pieces).len());
    lemma_names(pieces, i - head);
    lemma_names(pieces, 0);
    if i >= head {
        let n = names(pieces)[i - head];
        assert(components(path)[i] == n);
        let k = choose|k: int| 0 <= k < pieces.len() && pieces[k] == n;
        assert(!pieces[k].contains('/'));
    }
    if !is_absolute(path) {
        assert("/"@.len() == 1 && "/"@[0] == '/');
        assert("/"@.contains('/'));
        if head == 0 && names(pieces).len() > 0 {
            let n = names(pieces)[0];
            let k = choose|k: int| 0 <= k < pieces.len() && pieces[k] == n;
            assert(!pieces[k].contains('/'));
        } else if head == 1 {
            assert("."@[0] != '/');
        }
    }
}

/// A path lies within another exactly where it begins with all of the other's components.
pub proof fn law_within_by_components(path: Seq<char>, base: Seq<char>)
    ensures
        is_within(path, base) <==> components(base).len() <= components(path).len() && forall|
            i: int,
        |
            0 <= i < components(base).len() ==> components(path)[i] == #[trigger] components(
                base,
            )[i],
{
    let x = components(path);
    let y = components(base);
    if is_within(path, base) {
        assert(y =~= x.subrange(0, y.len() as int));
        assert forall|i: int| 0 <= i < y.len() implies x[i] == #[trigger] y[i] by {
            assert(x.subrange(0, y.len() as int)[i] == x[i]);
        }
    }
    if y.len() <= x.len() && forall|i: int| 0 <= i < y.len() ==> x[i] == #[trigger] y[i] {
        assert(y =~= x.subrange(0, y.len() as int));
    }
}

/// A path is the root exactly where it starts at the root and names nothing below it; and
/// within the root lies every path that starts there.
pub proof fn law_root(path: Seq<char>)
    ensures
        is_root(path) <==> path.len() > 0 && path[0] == '/' && forall|k: int|
            0 <= k < cut_all(path, '/').len() ==> (#[trigger] cut_all(path, '/')[k]).len() == 0
                || cut_all(path, '/')[k] == "."@,
        is_root("/"@),
        is_within(path, "/"@) <==> path.len() > 0 && path[0] == '/',
{
    reveal_strlit("/");
    reveal_strlit(".");
    let pieces = cut_all(path, '/');
    lemma_names(pieces, 0);
    law_cut_all(path, '/');
    let empty = Seq::<char>::empty();
    assert("/"@ =~= empty + seq!['/'] + empty);
    law_cut_again(empty, '/', empty);
    assert(cut_all("/"@, '/') =~= seq![empty, empty]);
    lemma_names(cut_all("/"@, '/'), 0);
    assert(components("/"@) =~= seq!["/"@]);
    assert(components("/"@)[0] == "/"@);
    law_within_by_components(path, "/"@);
    if components(path).len() > 0 {
        law_components_name_something(path, 0);
    }
    if is_absolute(path) {
        if names(pieces).len() == 0 {
            assert(components(path) =~= seq!["/"@]);
        }
        if is_root(path) {
            assert(components(path).len() == 1);
        }
        assert(components(path)[0] == "/"@);
    } else if is_root(path) {
        assert(components(path)[0] == "/"@);
    }
}

/// What is joined to a path lies within it, and has the components of both; and of two
/// different names that are joined to one path neither lies within the other.
pub proof fn law_joined_is_within(base: Seq<char>, name: Seq<char>, other: Seq<char>)
    requires
        base.len() > 0,
    ensures
        components(joined(base, name)) == components(base) + names(cut_all(name, '/')),
        is_within(joined(base, name), base),
        name != other && name.len() > 0 && other.len() > 0 && name != "."@ && other != "."@
            && !name.contains('/') && !other.contains('/') ==> !is_within(
            joined(base, name),
            joined(base, other),
        ),
{
    lemma_joined_components(base, name);
    lemma_joined_components(base, other);
    law_within_by_components(joined(base, name), base);
    if name != other && name.len() > 0 && other.len() > 0 && name != "."@ && other != "."@
        && !name.contains('/') && !other.contains('/') {
        law_cut_again(name, '/', Seq::empty());
        law_cut_again(other, '/', Seq::empty());
        reveal_with_fuel(names, 2);
        assert(seq![name].drop_last() =~= Seq::<Seq<char>>::empty());
        assert(seq![other].drop_last() =~= Seq::<Seq<char>>::empty());
        assert(names(seq![name]) =~= seq![name]);
        assert(names(seq![other]) =~= seq![other]);
        law_within_by_components(joined(base, name), joined(base, other));
        let k = components(base).len() as int;
        assert(components(joined(base, name))[k] == name);
        assert(components(joined(base, other))[k] == other);
    }
}

proof fn lemma_joined_components(base: Seq<char>, name: Seq<char>)
    requires
        base.len() > 0,
    ensures
        components(joined(base, name)) == components(base) + names(cut_all(name, '/')),
{
    reveal_strlit("/");
    assert("/"@ =~= seq!['/']);
    let path = joined(base, name);
    let more = cut_all(name, '/');
    law_cut_all(base, '/');
    law_cut_all(path, '/');
    if base.last() == '/' {
        let front = base.drop_last();
        let empty = Seq::<char>::empty();
        law_cut_all(front, '/');
        assert(base =~= front + seq!['/'] + empty);
        assert(path =~= front + seq!['/'] + name);
        law_cut_parts(front, '/', empty);
        law_cut_parts(front, '/', name);
        law_cut_again(empty, '/', empty);
        lemma_names_sum(cut_all(front, '/'), cut_all(empty, '/'));
        lemma_names_sum(cut_all(front, '/'), more);
        lemma_names(cut_all(empty, '/'), 0);
        assert(names(cut_all(front, '/')) + names(cut_all(empty, '/')) =~= names(
            cut_all(front, '/'),
        ));
        assert(cut_all(base, '/')[0] == cut_all(front, '/')[0]);
        assert(cut_all(path, '/')[0] == cut_all(front, '/')[0]);
    } else {
        assert(path =~= base + seq!['/'] + name);
        law_cut_parts(base, '/', name);
        lemma_names_sum(cut_all(base, '/'), more);
        assert(cut_all(path, '/')[0] == cut_all(base, '/')[0]);
    }
    assert(path[0] == base[0]);
    assert(components(path) =~= components(base) + names(more));
}

} // verus!
