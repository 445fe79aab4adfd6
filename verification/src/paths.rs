//! Paths as texts, with `/` between the parts.

use crate::json::lemma_take_next;
use crate::text::{
    begins, cat2, cat3, chars_of, lemma_char_from, lemma_one_piece, lemma_pieces_snoc, opt_string,
    owned, pieces, same, same_texts, split_char, starts_with, text_between, texts,
};
use vstd::prelude::*;

verus! {

/// Whether a path starts at the root.
pub open spec fn absolute(path: Seq<char>) -> bool {
    begins(path, "/"@)
}

/// Whether a path starts at the root.
pub fn is_absolute(path: &str) -> (r: bool)
    ensures
        r == absolute(path@),
{
    starts_with(path, "/")
}

/// A path below a directory: an absolute path stays itself.
pub open spec fn joined(base: Seq<char>, path: Seq<char>) -> Seq<char> {
    if absolute(path) {
        path
    } else if base.len() == 0 || base.last() == '/' {
        base + path
    } else {
        base + "/"@ + path
    }
}

/// A path below a directory.
pub fn join_path(base: &str, path: &str) -> (r: String)
    ensures
        r@ == joined(base@, path@),
{
    if is_absolute(path) {
        return owned(path);
    }
    let cs = chars_of(base);
    if cs.len() == 0 || cs[cs.len() - 1] == '/' {
        cat2(base, path)
    } else {
        cat3(base, "/", path)
    }
}

/// The names that a path is made of. Empty ones and those that stay where they are do not count.
pub open spec fn names_of(parts: Seq<Seq<char>>) -> Seq<Seq<char>>
    decreases parts.len(),
{
    if parts.len() == 0 {
        Seq::empty()
    } else if parts.last().len() > 0 && parts.last() != "."@ {
        names_of(parts.drop_last()).push(parts.last())
    } else {
        names_of(parts.drop_last())
    }
}

/// The name at some distance from the end of a path. What leads upwards is no name.
pub open spec fn name_from_end(path: Seq<char>, back: int) -> Option<Seq<char>> {
    let names = names_of(pieces(path, '/'));
    let i = names.len() - 1 - back;
    if 0 <= i < names.len() && names[i] != ".."@ {
        Some(names[i])
    } else {
        None
    }
}

fn path_names(path: &str) -> (r: Vec<String>)
    ensures
        texts(r@) == names_of(pieces(path@, '/')),
{
    let parts = split_char(path, '/');
    let ghost all = pieces(path@, '/');
    let mut out: Vec<String> = Vec::new();
    let mut i: usize = 0;
    assert(texts(out@) =~= Seq::empty());
    assert(all.subrange(0, 0) =~= Seq::empty());
    while i < parts.len()
        invariant
            i <= parts@.len(),
            all == texts(parts@),
            texts(out@) == names_of(all.subrange(0, i as int)),
        decreases parts@.len() - i,
    {
        proof {
            lemma_take_next(all, i as int);
        }
        if !parts[i].as_str().is_empty() && !same(parts[i].as_str(), ".") {
            let ghost before = out@;
            let n = owned(parts[i].as_str());
            out.push(n);
            assert(texts(out@) =~= texts(before).push(n@));
        }
        i = i + 1;
    }
    assert(all.subrange(0, i as int) =~= all);
    out
}

/// The name of what a path leads to, or with `back` one or more of the directory above.
pub fn path_name(path: &str, back: usize) -> (r: Option<String>)
    ensures
        opt_string(r) == name_from_end(path@, back as int),
{
    let names = path_names(path);
    assert(texts(names@).len() == names@.len());
    if back >= names.len() {
        return None;
    }
    let i: usize = names.len() - 1 - back;
    assert(texts(names@)[i as int] == names@[i as int]@);
    if same(names[i].as_str(), "..") {
        None
    } else {
        Some(owned(names[i].as_str()))
    }
}

// ---------------------------------------------------------------------------
// The parts of a path
// ---------------------------------------------------------------------------

/// The parts of a path: the root where it starts there, a single dot where it starts with one, and
/// its names.
pub open spec fn components(path: Seq<char>) -> Seq<Seq<char>> {
    let start = if absolute(path) {
        seq!["/"@]
    } else if pieces(path, '/')[0] == "."@ {
        seq!["."@]
    } else {
        Seq::empty()
    };
    start + names_of(pieces(path, '/'))
}

/// The parts of a path.
pub fn path_components(path: &str) -> (r: Vec<String>)
    ensures
        texts(r@) == components(path@),
{
    let parts = split_char(path, '/');
    assert(texts(parts@)[0] == parts@[0]@);
    let mut out: Vec<String> = Vec::new();
    if is_absolute(path) {
        out.push(owned("/"));
    } else if same(parts[0].as_str(), ".") {
        out.push(owned("."));
    }
    let ghost start = texts(out@);
    let ghost before = out@;
    let mut names = path_names(path);
    let ghost all = texts(names@);
    let ghost more = names@;
    out.append(&mut names);
    assert(texts(out@) =~= texts(before) + texts(more));
    assert(texts(out@) =~= components(path@));
    out
}

/// The path that is made of some parts.
pub open spec fn path_text(parts: Seq<Seq<char>>) -> Seq<char>
    decreases parts.len(),
{
    if parts.len() == 0 {
        Seq::empty()
    } else {
        joined(path_text(parts.drop_last()), parts.last())
    }
}

/// The path that is made of some parts.
pub fn path_from(parts: &Vec<String>) -> (r: String)
    ensures
        r@ == path_text(texts(parts@)),
{
    let ghost all = texts(parts@);
    let mut out = String::new();
    let mut i: usize = 0;
    assert(out@ =~= Seq::empty());
    assert(all.subrange(0, 0) =~= Seq::empty());
    while i < parts.len()
        invariant
            i <= parts@.len(),
            all == texts(parts@),
            out@ == path_text(all.subrange(0, i as int)),
        decreases parts@.len() - i,
    {
        proof {
            lemma_take_next(all, i as int);
            assert(all[i as int] == parts@[i as int]@);
        }
        out = join_path(out.as_str(), parts[i].as_str());
        i = i + 1;
    }
    assert(all.subrange(0, i as int) =~= all);
    out
}

/// The parts of a path with every step upwards taken, or nothing where it climbs above where it
/// starts.
pub open spec fn normalized(parts: Seq<Seq<char>>) -> Option<Seq<Seq<char>>>
    decreases parts.len(),
{
    if parts.len() == 0 {
        Some(Seq::empty())
    } else {
        match normalized(parts.drop_last()) {
            None => None,
            Some(s) => if parts.last() == ".."@ {
                if s.len() == 0 || s.last() == "/"@ {
                    None
                } else {
                    Some(s.drop_last())
                }
            } else if parts.last() == "."@ {
                Some(s)
            } else {
                Some(s.push(parts.last()))
            },
        }
    }
}

/// Some texts, as views, if there are any.
pub open spec fn opt_parts(o: Option<Vec<String>>) -> Option<Seq<Seq<char>>> {
    match o {
        Some(v) => Some(texts(v@)),
        None => None,
    }
}

proof fn lemma_stays_above(parts: Seq<Seq<char>>, i: int)
    requires
        0 <= i <= parts.len(),
        normalized(parts.subrange(0, i)) is None,
    ensures
        normalized(parts) is None,
    decreases parts.len() - i,
{
    if i < parts.len() {
        lemma_take_next(parts, i);
        lemma_stays_above(parts, i + 1);
    } else {
        assert(parts.subrange(0, i) =~= parts);
    }
}

/// The parts of a path with every step upwards taken.
pub fn normalize(parts: &Vec<String>) -> (r: Option<Vec<String>>)
    ensures
        opt_parts(r) == normalized(texts(parts@)),
{
    let ghost all = texts(parts@);
    let mut out: Vec<String> = Vec::new();
    let mut i: usize = 0;
    assert(texts(out@) =~= Seq::empty());
    assert(all.subrange(0, 0) =~= Seq::empty());
    while i < parts.len()
        invariant
            i <= parts@.len(),
            all == texts(parts@),
            normalized(all.subrange(0, i as int)) == Some(texts(out@)),
        decreases parts@.len() - i,
    {
        proof {
            lemma_take_next(all, i as int);
            assert(all[i as int] == parts@[i as int]@);
        }
        let part = parts[i].as_str();
        let ghost before = out@;
        if same(part, "..") {
            let n: usize = out.len();
            assert(texts(before).len() == n);
            if n > 0 {
                assert(texts(before).last() == before[n - 1]@);
            }
            if n == 0 || same(out[n - 1].as_str(), "/") {
                proof {
                    lemma_stays_above(all, i as int + 1);
                }
                return None;
            }
            out.truncate(n - 1);
            assert(texts(out@) =~= texts(before).drop_last());
        } else if !same(part, ".") {
            let o = owned(part);
            out.push(o);
            assert(texts(out@) =~= texts(before).push(o@));
        }
        i = i + 1;
    }
    assert(all.subrange(0, i as int) =~= all);
    Some(out)
}

/// Whether a path, by its parts, is below another.
pub open spec fn is_below(parts: Seq<Seq<char>>, root: Seq<Seq<char>>) -> bool {
    root.len() <= parts.len() && parts.subrange(0, root.len() as int) == root
}

/// Whether a path, by its parts, is below another.
pub fn below(parts: &Vec<String>, root: &Vec<String>) -> (r: bool)
    ensures
        r == is_below(texts(parts@), texts(root@)),
{
    let ghost (p, q) = (texts(parts@), texts(root@));
    assert(p.len() == parts@.len() && q.len() == root@.len());
    if root.len() > parts.len() {
        return false;
    }
    let mut i: usize = 0;
    while i < root.len()
        invariant
            i <= root@.len(),
            root@.len() <= parts@.len(),
            p == texts(parts@),
            q == texts(root@),
            forall|k: int| 0 <= k < i ==> #[trigger] q[k] == p[k],
        decreases root@.len() - i,
    {
        assert(p[i as int] == parts@[i as int]@ && q[i as int] == root@[i as int]@);
        if !same(parts[i].as_str(), root[i].as_str()) {
            assert(p.subrange(0, q.len() as int)[i as int] == p[i as int]);
            return false;
        }
        i = i + 1;
    }
    assert(p.subrange(0, q.len() as int) =~= q);
    true
}

/// Whether a text is the name of one step downwards.
pub open spec fn is_name(s: Seq<char>) -> bool {
    s.len() > 0 && !s.contains('/') && s != "."@
}

/// Whether some parts are names, but for a root that comes first.
pub open spec fn are_parts(parts: Seq<Seq<char>>) -> bool {
    forall|i: int|
        0 <= i < parts.len() ==> is_name(#[trigger] parts[i]) || (i == 0 && parts[i] == "/"@)
}

proof fn lemma_path_end(parts: Seq<Seq<char>>)
    requires
        are_parts(parts),
        parts.len() > 0,
    ensures
        path_text(parts).len() > 0,
        path_text(parts).last() == '/' <==> parts.len() == 1 && parts[0] == "/"@,
{
    reveal_strlit("/");
    let n = parts.last();
    let t = path_text(parts);
    if is_name(n) {
        assert(t.last() == n.last());
        assert(n[n.len() - 1] != '/') by {
            assert(n.contains(n[n.len() - 1]));
        }
        if parts.len() == 1 && parts[0] == "/"@ {
            assert("/"@[0] == '/');
            assert("/"@.contains('/'));
        }
    } else {
        assert(parts.len() == 1);
        assert(absolute(n)) by {
            assert("/"@.subrange(0, 1) =~= "/"@);
        }
    }
}

proof fn lemma_one_name(n: Seq<char>)
    requires
        !n.contains('/'),
    ensures
        pieces(n, '/') == seq![n],
        names_of(seq![n]) == (if n.len() > 0 && n != "."@ {
            seq![n]
        } else {
            Seq::empty()
        }),
{
    lemma_one_piece(n, '/');
    let none = seq![n].drop_last();
    assert(none.len() == 0);
    assert(names_of(none) =~= Seq::empty());
    assert(seq![n].last() == n);
    assert(names_of(none).push(n) =~= seq![n]);
}

/// A path that is made of names is made of these names.
pub proof fn law_parts_are_read_back(parts: Seq<Seq<char>>)
    requires
        are_parts(parts),
    ensures
        components(path_text(parts)) == parts,
    decreases parts.len(),
{
    reveal_strlit("/");
    reveal_strlit(".");
    if parts.len() == 0 {
        let e = Seq::<char>::empty();
        lemma_one_name(e);
        assert(!absolute(e));
        assert(e != "."@);
        assert(components(e) =~= parts);
    } else {
        let init = parts.drop_last();
        let n = parts.last();
        let p = path_text(init);
        assert(are_parts(init)) by {
            assert forall|i: int| 0 <= i < init.len() implies is_name(#[trigger] init[i]) || (i == 0
                && init[i] == "/"@) by {
                assert(init[i] == parts[i]);
            }
        }
        law_parts_are_read_back(init);
        if is_name(n) {
            assert(!absolute(n)) by {
                if absolute(n) {
                    assert(n.subrange(0, 1)[0] == n[0]);
                    assert("/"@[0] == '/');
                    assert(n.contains(n[0]));
                }
            }
            if init.len() == 0 {
                assert(path_text(parts) =~= n);
                lemma_one_name(n);
                assert(components(n) =~= parts);
            } else {
                lemma_path_end(init);
                // The path up to the last name, without a slash at its end.
                let a = if p.last() == '/' {
                    p.drop_last()
                } else {
                    p
                };
                let t = path_text(parts);
                assert(t =~= a + seq!['/'] + n);
                lemma_pieces_snoc(a, n, '/', 0);
                let ps = pieces(a, '/');
                assert(pieces(t, '/') == ps.push(n));
                assert(ps.push(n).drop_last() =~= ps);
                assert(names_of(pieces(t, '/')) == names_of(ps).push(n));
                lemma_char_from(a, '/', 0);
                assert(ps.len() >= 1);
                if p.last() == '/' {
                    assert(init =~= seq!["/"@]);
                    assert(path_text(init.drop_last()) =~= Seq::empty());
                    assert(absolute("/"@)) by {
                        assert("/"@.subrange(0, 1) =~= "/"@);
                    }
                    assert(p == "/"@);
                    assert(a =~= Seq::empty());
                    lemma_one_name(a);
                    assert(absolute(t)) by {
                        assert(t.subrange(0, 1) =~= "/"@);
                    }
                    assert(components(t) =~= parts);
                } else {
                    assert(absolute(t) == absolute(p)) by {
                        assert(t.subrange(0, 1) =~= p.subrange(0, 1));
                    }
                    assert(components(t) =~= components(p).push(n));
                    assert(parts =~= init.push(n));
                }
            }
        } else {
            assert(parts.len() == 1);
            assert(init =~= Seq::empty());
            let t = path_text(parts);
            assert(absolute("/"@)) by {
                assert("/"@.subrange(0, 1) =~= "/"@);
            }
            assert(t == "/"@);
            let e = Seq::<char>::empty();
            assert(t =~= e + seq!['/'] + e);
            lemma_pieces_snoc(e, e, '/', 0);
            lemma_one_name(e);
            assert(pieces(t, '/') =~= seq![e, e]);
            assert(seq![e, e].drop_last() =~= seq![e]);
            assert(names_of(seq![e, e]) =~= Seq::empty());
            assert(components(t) =~= parts);
        }
    }
}

proof fn lemma_components_snoc(a: Seq<char>, n: Seq<char>)
    requires
        !n.contains('/'),
    ensures
        components(a + seq!['/'] + n) == (if a.len() == 0 {
            seq!["/"@]
        } else {
            components(a)
        }) + (if n.len() > 0 && n != "."@ {
            seq![n]
        } else {
            Seq::empty()
        }),
{
    reveal_strlit("/");
    reveal_strlit(".");
    let t = a + seq!['/'] + n;
    let ps = pieces(a, '/');
    lemma_pieces_snoc(a, n, '/', 0);
    lemma_char_from(a, '/', 0);
    assert(ps.len() >= 1);
    assert(pieces(t, '/') == ps.push(n));
    assert(ps.push(n).drop_last() =~= ps);
    let tail = if n.len() > 0 && n != "."@ {
        seq![n]
    } else {
        Seq::empty()
    };
    assert(names_of(ps.push(n)) =~= names_of(ps) + tail);
    if a.len() == 0 {
        assert(absolute(t)) by {
            assert(t.subrange(0, 1) =~= "/"@);
        }
        assert(a =~= Seq::empty());
        lemma_one_name(a);
        assert(components(t) =~= seq!["/"@] + tail);
    } else {
        assert(absolute(t) == absolute(a)) by {
            assert(t.subrange(0, 1) =~= a.subrange(0, 1));
        }
        assert(ps.push(n)[0] == ps[0]);
        assert(components(t) =~= components(a) + tail);
    }
}

proof fn lemma_no_components()
    ensures
        components(Seq::empty()) == Seq::<Seq<char>>::empty(),
{
    reveal_strlit("/");
    reveal_strlit(".");
    let e = Seq::<char>::empty();
    lemma_one_name(e);
    assert(!absolute(e));
    assert(e != "."@);
    assert(components(e) =~= Seq::empty());
}

/// A name leads one step down from any directory.
pub proof fn law_a_name_leads_one_step_down(base: Seq<char>, name: Seq<char>)
    requires
        is_name(name),
    ensures
        components(joined(base, name)) == components(base).push(name),
{
    reveal_strlit("/");
    reveal_strlit(".");
    assert(!absolute(name)) by {
        if absolute(name) {
            assert(name.subrange(0, 1)[0] == name[0]);
            assert("/"@[0] == '/');
            assert(name.contains(name[0]));
        }
    }
    if base.len() == 0 {
        assert(base =~= Seq::empty());
        lemma_no_components();
        lemma_one_name(name);
        assert(joined(base, name) =~= name);
        assert(components(name) =~= seq![name]);
        assert(components(base).push(name) =~= seq![name]);
    } else if base.last() == '/' {
        let a = base.drop_last();
        let e = Seq::<char>::empty();
        assert(base =~= a + seq!['/'] + e);
        assert(joined(base, name) =~= a + seq!['/'] + name);
        lemma_components_snoc(a, e);
        lemma_components_snoc(a, name);
        assert(components(joined(base, name)) =~= components(base).push(name));
    } else {
        assert("/"@ =~= seq!['/']);
        assert(joined(base, name) =~= base + seq!['/'] + name);
        lemma_components_snoc(base, name);
        assert(components(joined(base, name)) =~= components(base).push(name));
    }
}

// ---------------------------------------------------------------------------
// The directory above
// ---------------------------------------------------------------------------

/// Whether there is a directory above what a path leads to: the path is neither empty nor the
/// root.
pub open spec fn has_parent(path: Seq<char>) -> bool {
    components(path).len() > 0 && components(path).last() != "/"@
}

/// Whether the first `k` characters of a path lead to the directory above.
pub open spec fn leads_above(path: Seq<char>, k: int) -> bool {
    components(path.subrange(0, k)) == components(path).drop_last()
}

/// How many characters of a path lead to the directory above, the fewest from `from` on.
pub open spec fn parent_end(path: Seq<char>, from: int) -> int
    decreases path.len() - from,
{
    if from < 0 || from >= path.len() || leads_above(path, from) {
        from
    } else {
        parent_end(path, from + 1)
    }
}

/// The directory above what a path leads to, as it is spelled in the path and without separators
/// at its end.
pub open spec fn parent(path: Seq<char>) -> Option<Seq<char>> {
    if has_parent(path) {
        Some(path.subrange(0, parent_end(path, 0)))
    } else {
        None
    }
}

proof fn lemma_leads_above(path: Seq<char>) -> (k: int)
    requires
        has_parent(path),
    ensures
        0 <= k < path.len(),
        leads_above(path, k),
    decreases path.len(),
{
    reveal_strlit("/");
    reveal_strlit(".");
    lemma_no_components();
    let e = Seq::<char>::empty();
    assert(path.subrange(0, 0) =~= e);
    if !path.contains('/') {
        lemma_one_name(path);
        assert(!absolute(path)) by {
            if absolute(path) {
                assert(path.subrange(0, 1)[0] == path[0]);
                assert("/"@[0] == '/');
                assert(path.contains(path[0]));
            }
        }
        if path.len() == 0 {
            assert(path =~= e);
        }
        assert(components(path).drop_last() =~= Seq::empty());
        0
    } else {
        let j = last_slash(path);
        let a = path.subrange(0, j);
        let n = path.subrange(j + 1, path.len() as int);
        assert(path =~= a + seq!['/'] + n);
        lemma_components_snoc(a, n);
        if n.len() > 0 && n != "."@ {
            if a.len() == 0 {
                assert(a =~= e);
                assert(path.subrange(0, 1) =~= e + seq!['/'] + e);
                lemma_components_snoc(e, e);
                assert(components(path.subrange(0, 1)) =~= components(path).drop_last());
                1
            } else {
                assert(components(a) =~= components(path).drop_last());
                j
            }
        } else {
            assert(components(path) =~= if a.len() == 0 {
                seq!["/"@]
            } else {
                components(a)
            });
            let k = lemma_leads_above(a);
            assert(a.subrange(0, k) =~= path.subrange(0, k));
            k
        }
    }
}

proof fn last_slash(path: Seq<char>) -> (j: int)
    requires
        path.contains('/'),
    ensures
        0 <= j < path.len(),
        path[j] == '/',
        !path.subrange(j + 1, path.len() as int).contains('/'),
    decreases path.len(),
{
    let last = path.len() - 1;
    if path[last] == '/' {
        assert(path.subrange(last + 1, path.len() as int) =~= Seq::empty());
        last
    } else {
        let init = path.drop_last();
        let i = choose|i: int| 0 <= i < path.len() && path[i] == '/';
        assert(init[i] == '/');
        let j = last_slash(init);
        let n = path.subrange(j + 1, path.len() as int);
        assert(!n.contains('/')) by {
            if n.contains('/') {
                let m = choose|m: int| 0 <= m < n.len() && n[m] == '/';
                assert(init.subrange(j + 1, init.len() as int)[m] == '/');
            }
        }
        j
    }
}

proof fn lemma_parent_end(path: Seq<char>, from: int, k: int)
    requires
        0 <= from <= k < path.len(),
        leads_above(path, k),
    ensures
        from <= parent_end(path, from) <= k,
        leads_above(path, parent_end(path, from)),
    decreases path.len() - from,
{
    if !leads_above(path, from) {
        lemma_parent_end(path, from + 1, k);
    }
}

/// The parts of the directory above are those of the path but for the last.
pub proof fn law_the_directory_above_is_one_step_up(path: Seq<char>)
    requires
        has_parent(path),
    ensures
        parent(path) is Some,
        components(parent(path)->0) == components(path).drop_last(),
        parent(path)->0.len() < path.len(),
{
    let k = lemma_leads_above(path);
    lemma_parent_end(path, 0, k);
}

/// The directory above what a path leads to.
pub fn parent_path(path: &str) -> (r: Option<String>)
    ensures
        opt_string(r) == parent(path@),
        r is Some <==> has_parent(path@),
        r is Some ==> components(r->0@) == components(path@).drop_last(),
{
    let mut above = path_components(path);
    assert(texts(above@).len() == above@.len());
    let last = match above.pop() {
        Some(last) => last,
        None => {
            return None;
        },
    };
    assert(texts(above@) =~= components(path@).drop_last());
    assert(components(path@).last() == last@);
    if same(last.as_str(), "/") {
        return None;
    }
    proof {
        law_the_directory_above_is_one_step_up(path@);
        let above_at = lemma_leads_above(path@);
        lemma_parent_end(path@, 0, above_at);
    }
    let cs = chars_of(path);
    let mut k: usize = 0;
    while k < cs.len()
        invariant
            cs@ == path@,
            k <= cs@.len(),
            has_parent(path@),
            texts(above@) == components(path@).drop_last(),
            parent_end(path@, 0) == parent_end(path@, k as int),
            parent_end(path@, 0) < path@.len(),
            components(parent(path@)->0) == components(path@).drop_last(),
        decreases cs@.len() - k,
    {
        let start = text_between(&cs, 0, k);
        if same_texts(&path_components(start.as_str()), &above) {
            return Some(start);
        }
        k = k + 1;
    }
    None
}

proof fn lemma_names_snoc(base: Seq<char>, name: Seq<char>)
    requires
        is_name(name),
    ensures
        names_of(pieces(joined(base, name), '/')) == names_of(pieces(base, '/')).push(name),
{
    reveal_strlit("/");
    reveal_strlit(".");
    let e = Seq::<char>::empty();
    assert(!absolute(name)) by {
        if absolute(name) {
            assert(name.subrange(0, 1)[0] == name[0]);
            assert("/"@[0] == '/');
            assert(name.contains(name[0]));
        }
    }
    if base.len() == 0 {
        assert(base =~= e);
        lemma_one_name(e);
        lemma_one_name(name);
        assert(joined(base, name) =~= name);
        assert(names_of(pieces(base, '/')).push(name) =~= seq![name]);
    } else if base.last() == '/' {
        let a = base.drop_last();
        assert(base =~= a + seq!['/'] + e);
        assert(joined(base, name) =~= a + seq!['/'] + name);
        lemma_pieces_snoc(a, e, '/', 0);
        lemma_pieces_snoc(a, name, '/', 0);
        let ps = pieces(a, '/');
        assert(ps.push(e).drop_last() =~= ps);
        assert(ps.push(name).drop_last() =~= ps);
    } else {
        assert("/"@ =~= seq!['/']);
        assert(joined(base, name) =~= base + seq!['/'] + name);
        lemma_pieces_snoc(base, name, '/', 0);
        let ps = pieces(base, '/');
        assert(ps.push(name).drop_last() =~= ps);
    }
}

/// A path is named by its last step, and the directory it lies in by the step before.
pub proof fn law_the_last_steps_name_a_path(base: Seq<char>, dir: Seq<char>, name: Seq<char>)
    requires
        is_name(dir),
        is_name(name),
    ensures
        name != ".."@ ==> name_from_end(joined(joined(base, dir), name), 0) == Some(name),
        name == ".."@ ==> name_from_end(joined(joined(base, dir), name), 0) is None,
        dir != ".."@ ==> name_from_end(joined(joined(base, dir), name), 1) == Some(dir),
        name_from_end(""@, 0) is None,
{
    lemma_names_snoc(base, dir);
    lemma_names_snoc(joined(base, dir), name);
    let n = names_of(pieces(joined(joined(base, dir), name), '/'));
    assert(n[n.len() - 1] == name);
    assert(n[n.len() - 2] == dir);
    reveal_strlit("");
    assert(""@ =~= Seq::empty());
    lemma_one_name(""@);
}

} // verus!
