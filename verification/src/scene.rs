//! The body hierarchy of a scene: every body has at most one parent, and a
//! parent is always added before its children, so the world transform of
//! every body can be computed in one pass in insertion order.
use vstd::prelude::*;

use crate::planets::{body_at, body_index, body_name, body_parent, BODY_COUNT, SolarSystemBody};

verus! {

/// Index of a celestial body in a scene. Only the scene hands these out, when
/// a body is added, so a `BodyId` always refers to a body of that scene.
#[derive(Clone, Copy, Debug, PartialEq, Eq, Structural)]
pub struct BodyId(usize);

impl View for BodyId {
    type V = nat;

    closed spec fn view(&self) -> nat {
        self.0 as nat
    }
}

impl BodyId {
    /// Position of the body in the scene's list of bodies.
    pub fn index(self) -> (i: usize)
        ensures
            i == self@,
    {
        self.0
    }
}

/// The abstract content of a scene: for each body, in insertion order, its
/// payload, its name and the index of its parent.
pub struct SceneView<B> {
    pub bodies: Seq<B>,
    pub names: Seq<Seq<char>>,
    pub parents: Seq<Option<nat>>,
}

/// Every parent lies before its child in the list.
pub open spec fn parents_precede_children(parents: Seq<Option<nat>>) -> bool {
    forall|i: int| #![trigger parents[i]] 0 <= i < parents.len() ==> (parents[i] matches Some(p) ==> p < i)
}

/// The chain of a body and its ancestors, the body first and the root last.
pub open spec fn ancestor_chain(parents: Seq<Option<nat>>, i: nat) -> Seq<nat>
    decreases i,
{
    if i < parents.len() {
        match parents[i as int] {
            Some(p) => if p < i {
                seq![i] + ancestor_chain(parents, p)
            } else {
                seq![i]
            },
            None => seq![i],
        }
    } else {
        seq![i]
    }
}

/// `result` is what folding `compose` along `chain` gives, starting from the
/// relative transform of the first element and putting each ancestor's
/// relative transform on the left: `rel[root] * (... * (rel[parent] * rel[body]))`.
pub open spec fn folds_along<T, F: Fn(T, T) -> T>(compose: F, relative: Seq<T>, chain: Seq<nat>, result: T) -> bool {
    exists|accs: Seq<T>|
        #![trigger accs.len()]
        {
            &&& accs.len() == chain.len()
            &&& accs[0] == relative[chain[0] as int]
            &&& forall|k: int|
                #![trigger accs[k + 1]]
                0 <= k < chain.len() - 1 ==> call_ensures(compose, (relative[chain[k + 1] as int], accs[k]), accs[k + 1])
            &&& result == accs.last()
        }
}

/// The bodies of a scene and their hierarchy.
pub struct Scene<B> {
    bodies: Vec<B>,
    names: Vec<String>,
    parents: Vec<Option<usize>>,
}

impl<B> View for Scene<B> {
    type V = SceneView<B>;

    closed spec fn view(&self) -> SceneView<B> {
        SceneView {
            bodies: self.bodies@,
            names: self.names@.map_values(|n: String| n@),
            parents: self.parents@.map_values(|p: Option<usize>| match p {
                Some(q) => Some(q as nat),
                None => None,
            }),
        }
    }
}

impl<B> Scene<B> {
    /// The scene's lists agree in length and every parent precedes its child.
    pub open spec fn wf(&self) -> bool {
        &&& self@.bodies.len() == self@.names.len()
        &&& self@.bodies.len() == self@.parents.len()
        &&& parents_precede_children(self@.parents)
    }

    closed spec fn fields_agree(&self) -> bool {
        &&& self.bodies@.len() == self.names@.len()
        &&& self.bodies@.len() == self.parents@.len()
    }

    /// An empty scene.
    pub fn new() -> (s: Self)
        ensures
            s.wf(),
            s@.bodies.len() == 0,
    {
        let s = Scene { bodies: Vec::new(), names: Vec::new(), parents: Vec::new() };
        assert(s@.parents =~= Seq::<Option<nat>>::empty());
        s
    }

    /// Number of bodies in the scene.
    pub fn len(&self) -> (n: usize)
        requires
            self.wf(),
        ensures
            n == self@.bodies.len(),
    {
        self.bodies.len()
    }

    /// Add a body below `parent` (or as a root) and return its id, which is the
    /// number of bodies the scene held before.
    ///
    /// The parent must already be in the scene: it has to be added before its
    /// children.
    pub fn add_celestial_body(&mut self, body: B, name: String, parent: Option<BodyId>) -> (id: BodyId)
        requires
            old(self).wf(),
            parent matches Some(p) ==> p@ < old(self)@.bodies.len(),
        ensures
            final(self).wf(),
            id@ == old(self)@.bodies.len(),
            final(self)@.bodies == old(self)@.bodies.push(body),
            final(self)@.names == old(self)@.names.push(name@),
            final(self)@.parents == old(self)@.parents.push(
                match parent {
                    Some(p) => Some(p@),
                    None => None,
                },
            ),
    {
        let id = BodyId(self.bodies.len());
        let parent_index: Option<usize> = match parent {
            Some(p) => Some(p.0),
            None => None,
        };
        let ghost old_view = self@;
        self.bodies.push(body);
        self.names.push(name);
        self.parents.push(parent_index);
        proof {
            assert(self@.names =~= old_view.names.push(name@));
            assert(self@.parents =~= old_view.parents.push(
                match parent {
                    Some(p) => Some(p@),
                    None => None,
                },
            ));
        }
        id
    }

    /// The id of the body at position `i`, if the scene has that many bodies.
    pub fn id_at(&self, i: usize) -> (id: Option<BodyId>)
        requires
            self.wf(),
        ensures
            i < self@.bodies.len() ==> (id matches Some(b) && b@ == i),
            i >= self@.bodies.len() ==> id is None,
    {
        if i < self.bodies.len() {
            Some(BodyId(i))
        } else {
            None
        }
    }

    /// The body with the given id.
    pub fn body(&self, id: BodyId) -> (b: &B)
        requires
            self.wf(),
            id@ < self@.bodies.len(),
        ensures
            *b == self@.bodies[id@ as int],
    {
        &self.bodies[id.0]
    }

    /// Mutable access to the body with the given id; the hierarchy stays as it is.
    pub fn body_mut(&mut self, id: BodyId) -> (b: &mut B)
        requires
            old(self).wf(),
            id@ < old(self)@.bodies.len(),
        ensures
            *b == old(self)@.bodies[id@ as int],
            final(self)@.bodies == old(self)@.bodies.update(id@ as int, *final(b)),
            final(self)@.names == old(self)@.names,
            final(self)@.parents == old(self)@.parents,
            final(self).wf(),
    {
        &mut self.bodies[id.0]
    }

    /// Name of the body with the given id.
    pub fn name(&self, id: BodyId) -> (n: &str)
        requires
            self.wf(),
            id@ < self@.bodies.len(),
        ensures
            n@ == self@.names[id@ as int],
    {
        self.names[id.0].as_str()
    }

    /// Parent of the body with the given id, if it has one.
    pub fn parent(&self, id: BodyId) -> (p: Option<BodyId>)
        requires
            self.wf(),
            id@ < self@.bodies.len(),
        ensures
            match self@.parents[id@ as int] {
                Some(q) => p matches Some(pid) && pid@ == q,
                None => p is None,
            },
    {
        match self.parents[id.0] {
            Some(q) => Some(BodyId(q)),
            None => None,
        }
    }

    /// All bodies of the scene as `(id, name)` pairs, in insertion order.
    pub fn iter_bodies(&self) -> (list: Vec<(BodyId, String)>)
        requires
            self.wf(),
        ensures
            list.len() == self@.bodies.len(),
            forall|i: int|
                #![trigger list[i]]
                0 <= i < list.len() ==> list[i].0@ == i && list[i].1@ == self@.names[i],
    {
        let mut list: Vec<(BodyId, String)> = Vec::new();
        let n = self.bodies.len();
        let mut i: usize = 0;
        while i < n
            invariant
                self.wf(),
                n == self@.bodies.len(),
                i <= n,
                list.len() == i,
                forall|j: int|
                    #![trigger list[j]]
                    0 <= j < i ==> list[j].0@ == j && list[j].1@ == self@.names[j],
            decreases n - i,
        {
            let name = self.names[i].clone();
            assert(name@ == self@.names[i as int]);
            list.push((BodyId(i), name));
            i += 1;
        }
        list
    }

    /// World transform of every body, computed in one pass in insertion
    /// order: a root keeps its relative transform, any other body gets
    /// `compose(world[parent], relative[body])`. This relies on parents
    /// preceding their children.
    pub fn world_transforms<T: Copy, F: Fn(T, T) -> T>(&self, relative: &Vec<T>, compose: F) -> (world: Vec<T>)
        requires
            self.wf(),
            relative.len() == self@.bodies.len(),
            forall|a: T, b: T| compose.requires((a, b)),
        ensures
            world.len() == relative.len(),
            forall|i: int|
                #![trigger world[i]]
                0 <= i < world.len() ==> match self@.parents[i] {
                    Some(p) => call_ensures(compose, (world[p as int], relative[i]), world[i]),
                    None => world[i] == relative[i],
                },
    {
        let n = relative.len();
        let mut world: Vec<T> = Vec::new();
        let mut i: usize = 0;
        while i < n
            invariant
                self.wf(),
                n == relative.len(),
                n == self@.bodies.len(),
                forall|a: T, b: T| compose.requires((a, b)),
                i <= n,
                world.len() == i,
                forall|j: int|
                    #![trigger world[j]]
                    0 <= j < i ==> match self@.parents[j] {
                        Some(p) => call_ensures(compose, (world[p as int], relative[j]), world[j]),
                        None => world[j] == relative[j],
                    },
            decreases n - i,
        {
            assert(self@.parents[i as int] == match self.parents@[i as int] {
                Some(q) => Some(q as nat),
                None => None::<nat>,
            });
            let w = match self.parents[i] {
                Some(p) => {
                    assert(self@.parents[i as int] matches Some(q) && q < i);
                    compose(world[p], relative[i])
                },
                None => relative[i],
            };
            world.push(w);
            i += 1;
        }
        world
    }

    /// Transform of a body relative to the world, found by walking up its
    /// ancestor chain and putting each parent's relative transform on the
    /// left: `relative[root] * ... * relative[parent] * relative[body]`.
    pub fn get_body_orbital_transform<T: Copy, F: Fn(T, T) -> T>(&self, id: BodyId, relative: &Vec<T>, compose: F) -> (t: T)
        requires
            self.wf(),
            id@ < self@.bodies.len(),
            relative.len() == self@.bodies.len(),
            forall|a: T, b: T| compose.requires((a, b)),
        ensures
            folds_along(compose, relative@, ancestor_chain(self@.parents, id@), t),
    {
        let ghost chain = ancestor_chain(self@.parents, id@);
        proof {
            lemma_ancestor_chain(self@.parents, id@);
        }
        let mut curr: usize = id.0;
        let mut acc: T = relative[curr];
        let ghost mut accs: Seq<T> = seq![acc];
        loop
            invariant_except_break
                self.wf(),
                relative.len() == self@.bodies.len(),
                forall|a: T, b: T| compose.requires((a, b)),
                chain == ancestor_chain(self@.parents, id@),
                chain.len() >= 1,
                chain[0] == id@,
                forall|j: int| #![trigger chain[j]] 0 <= j < chain.len() ==> chain[j] < self@.parents.len(),
                forall|j: int|
                    #![trigger chain[j + 1]]
                    0 <= j < chain.len() - 1 ==> self@.parents[chain[j] as int] == Some(chain[j + 1]),
                self@.parents[chain.last() as int] is None,
                1 <= accs.len() <= chain.len(),
                curr == chain[accs.len() - 1],
                accs[0] == relative@[chain[0] as int],
                forall|k: int|
                    #![trigger accs[k + 1]]
                    0 <= k < accs.len() - 1 ==> call_ensures(compose, (relative@[chain[k + 1] as int], accs[k]), accs[k + 1]),
                acc == accs.last(),
            ensures
                folds_along(compose, relative@, chain, acc),
            decreases curr,
        {
            assert(self@.parents[curr as int] == match self.parents@[curr as int] {
                Some(q) => Some(q as nat),
                None => None::<nat>,
            });
            proof {
                let k = accs.len() - 1;
                if accs.len() < chain.len() {
                    assert(self@.parents[chain[k] as int] == Some(chain[k + 1]));
                }
            }
            match self.parents[curr] {
                Some(p) => {
                    assert(accs.len() < chain.len());
                    assert(chain[accs.len() as int] == p);
                    let next = compose(relative[p], acc);
                    proof {
                        accs = accs.push(next);
                    }
                    acc = next;
                    curr = p;
                },
                None => {
                    assert(accs.len() == chain.len());
                    break;
                },
            }
        }
        acc
    }
}

/// The parent index that the body table gives a body.
pub open spec fn table_parent(b: SolarSystemBody) -> Option<nat> {
    match body_parent(b) {
        Some(p) => Some(body_index(p)),
        None => None,
    }
}

/// Build the solar-system scene from one payload per body of the table, in
/// table order: each body is added below its parent, which the table lists
/// earlier. Returns the scene and the id of every body, indexed like the table.
pub fn build_solar_system<B>(payloads: Vec<B>) -> (result: (Scene<B>, Vec<BodyId>))
    requires
        payloads.len() == BODY_COUNT,
    ensures
        result.0.wf(),
        result.0@.bodies == payloads@,
        result.1.len() == BODY_COUNT,
        forall|i: int|
            #![trigger result.1[i]]
            0 <= i < BODY_COUNT ==> {
                &&& result.1[i]@ == i
                &&& result.0@.names[i] == body_name(body_at(i).unwrap())
                &&& result.0@.parents[i] == table_parent(body_at(i).unwrap())
            },
{
    let mut scene: Scene<B> = Scene::new();
    let mut ids: Vec<BodyId> = Vec::new();
    let mut rest = payloads;
    let ghost all = rest@;
    let mut i: usize = 0;
    while i < BODY_COUNT
        invariant
            i <= BODY_COUNT,
            all.len() == BODY_COUNT,
            scene.wf(),
            scene@.bodies.len() == i,
            scene@.bodies == all.subrange(0, i as int),
            rest@ == all.subrange(i as int, BODY_COUNT as int),
            ids.len() == i,
            forall|j: int|
                #![trigger ids[j]]
                0 <= j < i ==> {
                    &&& ids[j]@ == j
                    &&& scene@.names[j] == body_name(body_at(j).unwrap())
                    &&& scene@.parents[j] == table_parent(body_at(j).unwrap())
                },
        decreases BODY_COUNT - i,
    {
        let body = SolarSystemBody::from_index(i).unwrap();
        let parent = match body.parent() {
            Some(p) => {
                proof {
                    crate::planets::lemma_parent_precedes_child(body);
                }
                Some(ids[p.index()])
            },
            None => None,
        };
        let ghost old_ids = ids@;
        let ghost old_scene = scene@;
        let payload = rest.remove(0);
        let name = body.name().to_owned();
        let id = scene.add_celestial_body(payload, name, parent);
        ids.push(id);
        proof {
            assert(body == body_at(i as int).unwrap());
            assert(scene@.names[i as int] == body_name(body));
            assert(scene@.parents[i as int] == table_parent(body));
            assert forall|j: int| 0 <= j < i + 1 implies {
                &&& #[trigger] ids[j]@ == j
                &&& scene@.names[j] == body_name(body_at(j).unwrap())
                &&& scene@.parents[j] == table_parent(body_at(j).unwrap())
            } by {
                if j < i {
                    assert(ids[j] == old_ids[j]);
                    assert(scene@.names[j] == old_scene.names[j]);
                    assert(scene@.parents[j] == old_scene.parents[j]);
                }
            }
            assert(scene@.bodies =~= all.subrange(0, i + 1));
            assert(rest@ =~= all.subrange(i + 1, BODY_COUNT as int));
        }
        i += 1;
    }
    proof {
        assert(scene@.bodies =~= payloads@);
    }
    (scene, ids)
}

/// The ancestor chain of a body starts at the body, steps from each body to
/// its parent, and ends at a root.
pub proof fn lemma_ancestor_chain(parents: Seq<Option<nat>>, i: nat)
    requires
        parents_precede_children(parents),
        i < parents.len(),
    ensures
        ancestor_chain(parents, i).len() >= 1,
        ancestor_chain(parents, i)[0] == i,
        forall|j: int|
            #![trigger ancestor_chain(parents, i)[j]]
            0 <= j < ancestor_chain(parents, i).len() ==> ancestor_chain(parents, i)[j] < parents.len(),
        forall|j: int|
            #![trigger ancestor_chain(parents, i)[j + 1]]
            0 <= j < ancestor_chain(parents, i).len() - 1 ==> parents[ancestor_chain(parents, i)[j] as int]
                == Some(ancestor_chain(parents, i)[j + 1]) && ancestor_chain(parents, i)[j + 1] < ancestor_chain(parents, i)[j],
        parents[ancestor_chain(parents, i).last() as int] is None,
    decreases i,
{
    let c = ancestor_chain(parents, i);
    match parents[i as int] {
        Some(p) => {
            assert(p < i);
            lemma_ancestor_chain(parents, p);
            let cp = ancestor_chain(parents, p);
            assert(c == seq![i] + cp);
            assert forall|j: int| 0 <= j < c.len() - 1 implies #[trigger] parents[c[j] as int] == Some(c[j + 1]) && c[j + 1] < c[j] by {
                if j > 0 {
                    assert(c[j] == cp[j - 1]);
                    assert(c[j + 1] == cp[j - 1 + 1]);
                }
            }
            assert forall|j: int| 0 <= j < c.len() implies #[trigger] c[j] < parents.len() by {
                if j > 0 {
                    assert(c[j] == cp[j - 1]);
                }
            }
        },
        None => {},
    }
}

/// Folding `op` along `chain` from position `k` on, starting from `x`:
/// `op(rel[chain[n-1]], ... op(rel[chain[k]], x))`.
pub open spec fn fold_from<T>(op: spec_fn(T, T) -> T, relative: Seq<T>, chain: Seq<nat>, k: int, x: T) -> T
    decreases chain.len() - k,
{
    if k < 0 || k >= chain.len() {
        x
    } else {
        fold_from(op, relative, chain, k + 1, op(relative[chain[k] as int], x))
    }
}

/// `world` holds, for each body, what one pass in insertion order computes
/// with `op`: a root keeps its relative transform, any other body gets
/// `op(world[parent], relative[body])`.
pub open spec fn is_world_pass<T>(op: spec_fn(T, T) -> T, parents: Seq<Option<nat>>, relative: Seq<T>, world: Seq<T>) -> bool {
    &&& world.len() == parents.len()
    &&& forall|i: int|
        #![trigger world[i]]
        0 <= i < world.len() ==> world[i] == match parents[i] {
            Some(p) => op(world[p as int], relative[i]),
            None => relative[i],
        }
}

proof fn lemma_fold_shift<T>(op: spec_fn(T, T) -> T, relative: Seq<T>, head: nat, chain: Seq<nat>, k: int, x: T)
    requires
        0 <= k,
    ensures
        fold_from(op, relative, seq![head] + chain, k + 1, x) == fold_from(op, relative, chain, k, x),
    decreases chain.len() - k,
{
    let c = seq![head] + chain;
    if k < chain.len() {
        assert(c[k + 1] == chain[k]);
        lemma_fold_shift(op, relative, head, chain, k + 1, op(relative[chain[k] as int], x));
    }
}

proof fn lemma_fold_is_world<T>(
    op: spec_fn(T, T) -> T,
    parents: Seq<Option<nat>>,
    relative: Seq<T>,
    world: Seq<T>,
    p: nat,
    x: T,
)
    requires
        parents_precede_children(parents),
        p < parents.len(),
        is_world_pass(op, parents, relative, world),
        forall|a: T, b: T, c: T| #[trigger] op(op(a, b), c) == op(a, op(b, c)),
    ensures
        fold_from(op, relative, ancestor_chain(parents, p), 0, x) == op(world[p as int], x),
    decreases p,
{
    let chain = ancestor_chain(parents, p);
    let y = op(relative[p as int], x);
    assert(chain[0] == p);
    assert(fold_from(op, relative, chain, 0, x) == fold_from(op, relative, chain, 1, y));
    match parents[p as int] {
        Some(pp) => {
            let cp = ancestor_chain(parents, pp);
            assert(chain == seq![p] + cp);
            lemma_fold_shift(op, relative, p, cp, 0, y);
            lemma_fold_is_world(op, parents, relative, world, pp, y);
            assert(world[p as int] == op(world[pp as int], relative[p as int]));
            assert(op(op(world[pp as int], relative[p as int]), x) == op(world[pp as int], op(relative[p as int], x)));
        },
        None => {
            assert(chain.len() == 1);
        },
    }
}

proof fn lemma_fold_accumulators<T, F: Fn(T, T) -> T>(
    compose: F,
    op: spec_fn(T, T) -> T,
    relative: Seq<T>,
    chain: Seq<nat>,
    accs: Seq<T>,
    k: int,
)
    requires
        forall|a: T, b: T, r: T| call_ensures(compose, (a, b), r) ==> r == op(a, b),
        accs.len() == chain.len(),
        0 <= k < chain.len(),
        forall|j: int|
            #![trigger accs[j + 1]]
            0 <= j < chain.len() - 1 ==> call_ensures(compose, (relative[chain[j + 1] as int], accs[j]), accs[j + 1]),
    ensures
        fold_from(op, relative, chain, k + 1, accs[k]) == accs.last(),
    decreases chain.len() - k,
{
    if k + 1 < chain.len() {
        assert(call_ensures(compose, (relative[chain[k + 1] as int], accs[k]), accs[k + 1]));
        lemma_fold_accumulators(compose, op, relative, chain, accs, k + 1);
    }
}

/// The transform that walking up the ancestor chain gives a body
/// ([`Scene::get_body_orbital_transform`]) is the world transform that the one-pass
/// update ([`Scene::world_transforms`]) gives it, whenever `compose` computes
/// an associative operation.
pub proof fn lemma_orbital_transform_is_world_transform<T, F: Fn(T, T) -> T>(
    compose: F,
    op: spec_fn(T, T) -> T,
    parents: Seq<Option<nat>>,
    relative: Seq<T>,
    world: Seq<T>,
    i: nat,
    t: T,
)
    requires
        parents_precede_children(parents),
        i < parents.len(),
        relative.len() == parents.len(),
        forall|a: T, b: T, r: T| call_ensures(compose, (a, b), r) ==> r == op(a, b),
        forall|a: T, b: T, c: T| #[trigger] op(op(a, b), c) == op(a, op(b, c)),
        world.len() == parents.len(),
        forall|j: int|
            #![trigger world[j]]
            0 <= j < world.len() ==> match parents[j] {
                Some(p) => call_ensures(compose, (world[p as int], relative[j]), world[j]),
                None => world[j] == relative[j],
            },
        folds_along(compose, relative, ancestor_chain(parents, i), t),
    ensures
        t == world[i as int],
{
    let chain = ancestor_chain(parents, i);
    lemma_ancestor_chain(parents, i);
    assert(is_world_pass(op, parents, relative, world)) by {
        assert forall|j: int| 0 <= j < world.len() implies #[trigger] world[j] == match parents[j] {
            Some(p) => op(world[p as int], relative[j]),
            None => relative[j],
        } by {
            assert(parents[j] matches Some(p) ==> p < j);
        }
    }
    let accs = choose|accs: Seq<T>|
        #![trigger accs.len()]
        {
            &&& accs.len() == chain.len()
            &&& accs[0] == relative[chain[0] as int]
            &&& forall|k: int|
                #![trigger accs[k + 1]]
                0 <= k < chain.len() - 1 ==> call_ensures(compose, (relative[chain[k + 1] as int], accs[k]), accs[k + 1])
            &&& t == accs.last()
        };
    lemma_fold_accumulators(compose, op, relative, chain, accs, 0);
    match parents[i as int] {
        Some(p) => {
            let cp = ancestor_chain(parents, p);
            assert(chain == seq![i] + cp);
            lemma_fold_shift(op, relative, i, cp, 0, relative[i as int]);
            lemma_fold_is_world(op, parents, relative, world, p, relative[i as int]);
        },
        None => {
            assert(chain.len() == 1);
        },
    }
}

} // verus!
