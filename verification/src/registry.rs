use vstd::prelude::*;
use crate::error::TranslateError;

verus! {

/// One extension declaration: a function name plus its argument-type
/// signature, standing at the anchor given by its position in the list.
#[derive(Debug, PartialEq)]
pub struct ExtensionDecl {
    pub name: String,
    pub signature: String,
}

/// Mathematical model of an [`ExtensionDecl`].
#[verifier::ext_equal]
pub struct ExtKeyV {
    pub name: Seq<char>,
    pub signature: Seq<char>,
}

impl View for ExtensionDecl {
    type V = ExtKeyV;

    open spec fn view(&self) -> ExtKeyV {
        ExtKeyV { name: self.name@, signature: self.signature@ }
    }
}

/// The model of a declaration list.
pub open spec fn decls_view(s: Seq<ExtensionDecl>) -> Seq<ExtKeyV> {
    s.map_values(|d: ExtensionDecl| d@)
}

/// Whether a declaration list already holds a key.
pub open spec fn has_key(s: Seq<ExtKeyV>, k: ExtKeyV) -> bool {
    exists|i: int| 0 <= i < s.len() && s[i] == k
}

/// The first position of a key in a declaration list; the length when the
/// key is absent.
pub open spec fn first_index(s: Seq<ExtKeyV>, k: ExtKeyV) -> int
    decreases s.len(),
{
    if s.len() == 0 {
        0
    } else if s[0] == k {
        0
    } else {
        1 + first_index(s.subrange(1, s.len() as int), k)
    }
}

/// What registering a key does: an already-declared key keeps the list and
/// answers its first anchor; a fresh key is appended and answers the next
/// unused anchor (its zero-based position).
pub open spec fn register_spec(s: Seq<ExtKeyV>, k: ExtKeyV) -> (Seq<ExtKeyV>, int) {
    if has_key(s, k) {
        (s, first_index(s, k))
    } else {
        (s.push(k), s.len() as int)
    }
}

/// How [`first_index`] relates to the elements of the list.
pub proof fn lemma_first_index(s: Seq<ExtKeyV>, k: ExtKeyV)
    ensures
        has_key(s, k) ==> 0 <= first_index(s, k) < s.len() && s[first_index(s, k)] == k && (
        forall|j: int| 0 <= j < first_index(s, k) ==> s[j] != k),
        !has_key(s, k) ==> first_index(s, k) == s.len(),
    decreases s.len(),
{
    if s.len() > 0 {
        let rest = s.subrange(1, s.len() as int);
        lemma_first_index(rest, k);
        if s[0] != k {
            assert(forall|i: int| 1 <= i < s.len() ==> s[i] == rest[i - 1]);
            if has_key(s, k) {
                let w = choose|i: int| 0 <= i < s.len() && s[i] == k;
                assert(rest[w - 1] == k);
                assert(has_key(rest, k));
            }
            if has_key(rest, k) {
                let w = choose|i: int| 0 <= i < rest.len() && rest[i] == k;
                assert(s[w + 1] == k);
                assert(has_key(s, k));
            }
        }
    }
}

/// Registering is idempotent: a second registration of the same key in the
/// same session changes nothing and answers the same anchor.
pub proof fn lemma_register_idempotent(s: Seq<ExtKeyV>, k: ExtKeyV)
    ensures
        register_spec(register_spec(s, k).0, k) == register_spec(s, k),
{
    let (s1, a1) = register_spec(s, k);
    lemma_first_index(s, k);
    if has_key(s, k) {
    } else {
        assert(s1[s.len() as int] == k);
        assert(has_key(s1, k));
        lemma_first_index(s1, k);
        assert(forall|j: int| 0 <= j < s.len() ==> s1[j] == s[j]);
        if first_index(s1, k) < s.len() {
            assert(s[first_index(s1, k)] == k);
            assert(false);
        }
    }
}

/// Registering never disturbs anchors already given out: the old list stays
/// a prefix of the new one, and the answered anchor names the key.
pub proof fn lemma_register_extends(s: Seq<ExtKeyV>, k: ExtKeyV)
    ensures
        ({
            let (s2, a) = register_spec(s, k);
            &&& s2.subrange(0, s.len() as int) == s
            &&& 0 <= a < s2.len()
            &&& s2[a] == k
            &&& s.len() <= s2.len()
        }),
{
    let (s2, a) = register_spec(s, k);
    lemma_first_index(s, k);
    assert(s2.subrange(0, s.len() as int) =~= s);
}

/// The session-scoped anchor registry: a mapping from zero-based integer
/// anchor to (name, signature), built incrementally while producing a plan
/// and read back while consuming one.
///
/// Its view is the ordered declaration list; anchors are positions in it.
pub struct Registry {
    decls: Vec<ExtensionDecl>,
}

impl View for Registry {
    type V = Seq<ExtKeyV>;

    closed spec fn view(&self) -> Seq<ExtKeyV> {
        decls_view(self.decls@)
    }
}

impl Registry {
    /// A fresh session with no declarations.
    pub fn new() -> (r: Registry)
        ensures
            r@ == Seq::<ExtKeyV>::empty(),
    {
        let r = Registry { decls: Vec::new() };
        proof {
            assert(r@ =~= Seq::<ExtKeyV>::empty());
        }
        r
    }

    /// The declarations handed out so far, in anchor order.
    pub fn declarations(&self) -> (r: Vec<ExtensionDecl>)
        ensures
            decls_view(r@) == self@,
            r@.len() == self@.len(),
    {
        let mut out: Vec<ExtensionDecl> = Vec::new();
        let mut i: usize = 0;
        while i < self.decls.len()
            invariant
                i <= self.decls.len(),
                out@.len() == i,
                forall|j: int| 0 <= j < i ==> out@[j]@ == self.decls@[j]@,
            decreases self.decls.len() - i,
        {
            let d = &self.decls[i];
            out.push(ExtensionDecl { name: d.name.clone(), signature: d.signature.clone() });
            i = i + 1;
        }
        proof {
            assert(decls_view(out@) =~= decls_view(self.decls@));
        }
        out
    }

    /// Registers a (name, signature) pair: idempotent within the session,
    /// assigning the next unused zero-based anchor on first encounter,
    /// exactly as [`register_spec`] says.
    pub fn register(&mut self, name: &String, signature: &String) -> (anchor: usize)
        ensures
            ({
                let k = ExtKeyV { name: name@, signature: signature@ };
                let (s2, a) = register_spec(old(self)@, k);
                &&& final(self)@ == s2
                &&& anchor as int == a
            }),
    {
        let ghost k = ExtKeyV { name: name@, signature: signature@ };
        let mut i: usize = 0;
        while i < self.decls.len()
            invariant
                i <= self.decls.len(),
                k == (ExtKeyV { name: name@, signature: signature@ }),
                self@ == decls_view(self.decls@),
                self@.len() == self.decls@.len(),
                forall|j: int| 0 <= j < self.decls@.len() ==> self@[j] == self.decls@[j]@,
                forall|j: int| 0 <= j < i ==> self@[j] != k,
            decreases self.decls.len() - i,
        {
            let d = &self.decls[i];
            if d.name == *name && d.signature == *signature {
                proof {
                    assert(d@ == k);
                    assert(self@[i as int] == k);
                    lemma_first_index(self@, k);
                    assert(first_index(self@, k) == i as int);
                }
                return i;
            }
            proof {
                assert(self@[i as int] != k);
            }
            i = i + 1;
        }
        proof {
            assert(!has_key(self@, k));
        }
        let anchor = self.decls.len();
        self.decls.push(ExtensionDecl { name: name.clone(), signature: signature.clone() });
        proof {
            assert(decls_view(self.decls@) =~= decls_view(old(self).decls@).push(k));
        }
        anchor
    }

    /// Looks an anchor up, as the consumer does: a dangling anchor is the
    /// structural-corruption error `UnknownAnchor`, not recoverable.
    pub fn resolve(&self, anchor: usize) -> (r: Result<&ExtensionDecl, TranslateError>)
        ensures
            anchor < self@.len() <==> r is Ok,
            (match r {
                Ok(d) => d@ == self@[anchor as int],
                Err(e) => e == TranslateError::UnknownAnchor,
            }),
    {
        if anchor < self.decls.len() {
            Ok(&self.decls[anchor])
        } else {
            Err(TranslateError::UnknownAnchor)
        }
    }
}

} // verus!
