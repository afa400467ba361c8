//! Symbolic expressions, as which syntax trees are shown.

use vstd::prelude::*;
use vstd::string::StringExecFns;

verus! {

/// A symbolic expression: an atom, or a list of expressions.
#[derive(Debug)]
pub enum Sexp {
    Atom(String),
    List(Vec<Sexp>),
}

/// What a symbolic expression says, as a mathematical value.
pub enum Tree {
    Atom(Seq<char>),
    List(Seq<Tree>),
}

/// What the expressions of `list` from position `i` on say.
pub open spec fn trees(list: Seq<Sexp>, i: int) -> Seq<Tree>
    decreases list, list.len() - i,
{
    if i < 0 || i >= list.len() {
        Seq::empty()
    } else {
        seq![list[i].tree()] + trees(list, i + 1)
    }
}

/// The texts of the trees of `list` from position `i` on, each after a
/// space but the first of the whole list.
pub open spec fn text_from(list: Seq<Tree>, i: int) -> Seq<char>
    decreases list, list.len() - i,
{
    if i < 0 || i >= list.len() {
        Seq::empty()
    } else {
        (if i == 0 {
            Seq::<char>::empty()
        } else {
            seq![' ']
        }) + list[i].text() + text_from(list, i + 1)
    }
}

impl Tree {
    /// The text of the tree: an atom as it is, a list in parentheses with
    /// one space between its items.
    pub open spec fn text(self) -> Seq<char>
        decreases self,
    {
        match self {
            Tree::Atom(a) => a,
            Tree::List(l) => seq!['('] + text_from(l, 0) + seq![')'],
        }
    }
}

/// The trees of a list are those of its items, in order.
pub proof fn lemma_trees(list: Seq<Sexp>, i: int)
    requires
        0 <= i <= list.len(),
    ensures
        trees(list, i).len() == list.len() - i,
        forall|k: int| 0 <= k < list.len() - i ==> trees(list, i)[k] == list[i + k].tree(),
    decreases list.len() - i,
{
    if i < list.len() {
        lemma_trees(list, i + 1);
        assert forall|k: int| 0 <= k < list.len() - i implies trees(list, i)[k] == list[i
            + k].tree() by {
            if k > 0 {
                assert(trees(list, i + 1)[k - 1] == list[i + 1 + (k - 1)].tree());
            }
        }
    }
}

/// The trees of a list with one more item are the trees of the list and the
/// tree of the item.
pub proof fn lemma_trees_push(list: Seq<Sexp>, x: Sexp)
    ensures
        trees(list.push(x), 0) == trees(list, 0).push(x.tree()),
{
    lemma_trees(list, 0);
    lemma_trees(list.push(x), 0);
    assert(trees(list.push(x), 0) =~= trees(list, 0).push(x.tree()));
}

/// The text of a list from a position on, where the list is given one more
/// tree.
pub proof fn lemma_text_from_push(list: Seq<Tree>, x: Tree, i: int)
    requires
        0 <= i <= list.len(),
    ensures
        text_from(list.push(x), i) == text_from(list, i) + (if list.len() == 0 {
            Seq::<char>::empty()
        } else {
            seq![' ']
        }) + x.text(),
    decreases list.len() - i,
{
    let more = list.push(x);
    if i < list.len() {
        lemma_text_from_push(list, x, i + 1);
        assert(more[i] == list[i]);
        let sep = if i == 0 {
            Seq::<char>::empty()
        } else {
            seq![' ']
        };
        let tail = (if list.len() == 0 {
            Seq::<char>::empty()
        } else {
            seq![' ']
        }) + x.text();
        assert(sep + list[i].text() + (text_from(list, i + 1) + tail) =~= sep + list[i].text()
            + text_from(list, i + 1) + tail);
    } else {
        assert(text_from(more, i + 1) =~= Seq::<char>::empty());
        assert(more[i] == x);
        assert(text_from(list, i) =~= Seq::<char>::empty());
        assert(text_from(more, i) =~= (if list.len() == 0 {
            Seq::<char>::empty()
        } else {
            seq![' ']
        }) + x.text());
    }
}

impl Sexp {
    /// What the expression says.
    pub open spec fn tree(self) -> Tree
        decreases self,
    {
        match self {
            Sexp::Atom(a) => Tree::Atom(a@),
            Sexp::List(l) => Tree::List(trees(l@, 0)),
        }
    }

    pub fn from_atom(a: &str) -> (r: Self)
        ensures
            r.tree() == Tree::Atom(a@),
    {
        Sexp::Atom(a.to_owned())
    }

    /// Writes the text of the expression after what `out` holds.
    pub fn write_to(&self, out: &mut String)
        ensures
            final(out)@ == old(out)@ + self.tree().text(),
        decreases self,
    {
        match self {
            Sexp::Atom(a) => {
                out.append(a.as_str());
            },
            Sexp::List(l) => {
                proof {
                    reveal_strlit("(");
                    reveal_strlit(" ");
                    reveal_strlit(")");
                    lemma_trees(l@, 0);
                }
                out.append("(");
                let ghost all = trees(l@, 0);
                let n = l.len();
                let mut i: usize = 0;
                assert(text_from(all.subrange(0, 0), 0) =~= Seq::<char>::empty());
                assert forall|k: int| 0 <= k < n implies decreases_to!(*self => #[trigger] l@[k]) by {
                    assert(decreases_to!(*self => l@));
                    assert(decreases_to!(l@ => l@[k]));
                }
                while i < n
                    invariant
                        n == l@.len(),
                        i <= n,
                        forall|k: int| 0 <= k < n ==> decreases_to!(*self => #[trigger] l@[k]),
                        all == trees(l@, 0),
                        all.len() == n,
                        forall|k: int| 0 <= k < n ==> all[k] == l@[k].tree(),
                        "("@ == seq!['('],
                        " "@ == seq![' '],
                        out@ == old(out)@ + seq!['('] + text_from(all.subrange(0, i as int), 0),
                    decreases n - i,
                {
                    if i > 0 {
                        out.append(" ");
                    }

                    l[i].write_to(out);
                    proof {
                        let before = all.subrange(0, i as int);
                        lemma_text_from_push(before, all[i as int], 0);
                        assert(all.subrange(0, i + 1) =~= before.push(all[i as int]));
                        assert(out@ =~= old(out)@ + seq!['('] + text_from(
                            all.subrange(0, i + 1),
                            0,
                        ));
                    }
                    i += 1;
                }
                assert(all.subrange(0, n as int) =~= all);
                out.append(")");
                assert(out@ =~= old(out)@ + self.tree().text());
            },
        }
    }

    /// The text of the expression.
    pub fn to_text(&self) -> (r: String)
        ensures
            r@ == self.tree().text(),
    {
        let mut out = String::new();
        self.write_to(&mut out);
        assert(out@ =~= self.tree().text());
        out
    }
}

/// What can be shown as a symbolic expression.
pub trait ToSexp {
    /// What the value is shown as.
    spec fn shown(&self) -> Tree;

    /// Shows the value.
    fn to_sexp(&self) -> (r: Sexp)
        ensures
            r.tree() == self.shown(),
    ;
}

} // verus!
