//! Ordering bookkeeping of ray-shape intersections.
//!
//! The renderer collects, for one cast ray, every parameter `t` at which
//! the ray meets a scene object, keeps the collection sorted by `t` (ties
//! in any order, non-finite `t` last), and then needs two exact pieces of
//! bookkeeping on top of that order:
//!
//! * hit selection: the visible hit is the first intersection whose `t` is
//!   non-negative, if any;
//! * the refractive containment walk: scanning the sorted collection from
//!   the front, each intersection with an object toggles that object's
//!   membership in a stack of "volumes the ray is currently inside"; at a
//!   chosen intersection, the medium left is the top of the stack before
//!   the toggle and the medium entered is the top after it. The walk makes
//!   the refraction boundary come out right even for nested or overlapping
//!   transparent volumes.
//!
//! Both need only the order of the collection, the sign of each `t` and the
//! identity of each object, so entries here carry an object handle (the
//! index of the object in the scene's list, with objects that compare equal
//! sharing a handle) and the sign of `t`. The `t` values themselves stay
//! with the embedding renderer, which inserts entries in sorted order.

use vstd::prelude::*;

verus! {

/// One recorded intersection: which object was met, and whether the ray
/// parameter `t` of the meeting is non-negative.
#[derive(Debug, PartialEq, Eq, Structural, Clone, Copy)]
pub struct Intersect {
    /// Handle of the intersected object: its index in the scene's object
    /// list. Two entries carry the same handle exactly when the renderer
    /// considers them the same object.
    pub object: usize,
    /// Whether `t` is non-negative, so the meeting point lies on the ray
    /// and not behind its origin.
    pub positive: bool,
}

impl Intersect {
    /// An intersection record with object handle `object` and sign
    /// `positive`.
    pub fn new(object: usize, positive: bool) -> (r: Self)
        ensures
            r == (Intersect { object, positive }),
    {
        Intersect { object, positive }
    }
}

/// The index of the first occurrence of `obj` in `c`, or -1 when `c` does
/// not contain it.
pub open spec fn find_first(c: Seq<usize>, obj: usize) -> int
    decreases c.len(),
{
    if c.len() == 0 {
        -1
    } else if c[0] == obj {
        0
    } else if find_first(c.drop_first(), obj) == -1 {
        -1
    } else {
        find_first(c.drop_first(), obj) + 1
    }
}

/// One step of the containment walk: meeting `obj` removes its first
/// occurrence from the containment stack if it is present (the ray leaves
/// the volume), and appends it otherwise (the ray enters the volume).
pub open spec fn toggle(c: Seq<usize>, obj: usize) -> Seq<usize> {
    if find_first(c, obj) == -1 {
        c.push(obj)
    } else {
        c.remove(find_first(c, obj))
    }
}

/// The containment stack after walking the first `n` entries of `objects`,
/// starting outside every volume.
pub open spec fn containers(objects: Seq<usize>, n: int) -> Seq<usize>
    decreases n,
{
    if n <= 0 {
        Seq::empty()
    } else {
        toggle(containers(objects, n - 1), objects[n - 1])
    }
}

/// The object handle whose medium surrounds the ray when the containment
/// stack is `c`: the top of the stack, or none when the stack is empty and
/// the ray is in the surrounding vacuum.
pub open spec fn surrounding(c: Seq<usize>) -> Option<usize> {
    if c.len() == 0 {
        None
    } else {
        Some(c.last())
    }
}

/// `find_first` finds exactly the first occurrence.
proof fn lemma_find_first(c: Seq<usize>, obj: usize)
    ensures
        !c.contains(obj) ==> find_first(c, obj) == -1,
        c.contains(obj) ==> {
            let i = find_first(c, obj);
            &&& 0 <= i < c.len()
            &&& c[i] == obj
            &&& forall|k: int| 0 <= k < i ==> c[k] != obj
        },
    decreases c.len(),
{
    if c.len() == 0 {
    } else {
        lemma_find_first(c.drop_first(), obj);
        if c[0] == obj {
        } else {
            assert(c.contains(obj) ==> c.drop_first().contains(obj)) by {
                if c.contains(obj) {
                    let w = choose|w: int| 0 <= w < c.len() && c[w] == obj;
                    assert(c.drop_first()[w - 1] == obj);
                }
            }
            if c.drop_first().contains(obj) {
                let i = find_first(c.drop_first(), obj) + 1;
                assert(c[i] == c.drop_first()[i - 1]);
                assert(c.contains(obj)) by {
                    assert(c[i] == obj);
                }
                assert(forall|k: int| 1 <= k < i ==> c[k] == c.drop_first()[k - 1]);
            }
        }
    }
}

/// A collection of the intersections of one ray with the scene, in
/// ascending order of the ray parameter `t`.
#[derive(Debug, Clone)]
pub struct VecIntersections {
    /// The recorded intersections; the embedding renderer inserts them in
    /// ascending-`t` order, non-finite `t` last.
    pub entries: Vec<Intersect>,
}

impl VecIntersections {
    /// The object handles of the entries, in collection order.
    pub open spec fn objects(&self) -> Seq<usize> {
        self.entries@.map_values(|e: Intersect| e.object)
    }

    /// An empty collection.
    pub fn new() -> (r: Self)
        ensures
            r.entries@ == Seq::<Intersect>::empty(),
    {
        VecIntersections { entries: Vec::new() }
    }

    /// Appends an intersection; the caller keeps the collection sorted by
    /// inserting in ascending-`t` order.
    pub fn push(&mut self, add: Intersect)
        ensures
            final(self).entries@ == old(self).entries@.push(add),
    {
        self.entries.push(add);
    }

    /// The number of recorded intersections.
    pub fn len(&self) -> (n: usize)
        ensures
            n == self.entries@.len(),
    {
        self.entries.len()
    }

    /// Whether no intersection was recorded.
    pub fn is_empty(&self) -> (r: bool)
        ensures
            r == (self.entries@.len() == 0),
    {
        self.entries.is_empty()
    }

    /// The visible hit: the position of the first intersection whose `t`
    /// is non-negative, or none when every `t` is negative. Because the
    /// collection is in ascending-`t` order, that entry is the one with the
    /// smallest non-negative `t`.
    pub fn hit(&self) -> (r: Option<usize>)
        ensures
            match r {
                None => forall|k: int|
                    0 <= k < self.entries@.len() ==> !self.entries@[k].positive,
                Some(i) => {
                    &&& i < self.entries@.len()
                    &&& self.entries@[i as int].positive
                    &&& forall|k: int| 0 <= k < i ==> !self.entries@[k].positive
                },
            },
    {
        let n = self.entries.len();
        let mut i: usize = 0;
        while i < n
            invariant
                n == self.entries@.len(),
                i <= n,
                forall|k: int| 0 <= k < i ==> !self.entries@[k].positive,
            decreases n - i,
        {
            if self.entries[i].positive {
                return Some(i);
            }
            i = i + 1;
        }
        None
    }

    /// The refraction boundary at the intersection with position `target`
    /// in the collection: the handle of the object whose medium the ray is
    /// leaving (`n1`, none for the surrounding vacuum) and the handle of
    /// the object whose medium it is entering (`n2`), found by the
    /// containment walk over the sorted collection.
    pub fn refraction_boundary(&self, target: usize) -> (r: (Option<usize>, Option<usize>))
        requires
            target < self.entries@.len(),
        ensures
            r.0 == surrounding(containers(self.objects(), target as int)),
            r.1 == surrounding(containers(self.objects(), target as int + 1)),
    {
        let mut stack: Vec<usize> = Vec::new();
        let mut i: usize = 0;
        while i < target
            invariant
                target < self.entries@.len(),
                i <= target,
                stack@ == containers(self.objects(), i as int),
            decreases target - i,
        {
            let obj = self.entries[i].object;
            assert(obj == self.objects()[i as int]);
            toggle_exec(&mut stack, obj);
            i = i + 1;
        }
        let n1 = last_of(&stack);
        let obj = self.entries[target].object;
        assert(obj == self.objects()[target as int]);
        toggle_exec(&mut stack, obj);
        let n2 = last_of(&stack);
        (n1, n2)
    }
}

/// The top of the containment stack, or none when it is empty.
fn last_of(stack: &Vec<usize>) -> (r: Option<usize>)
    ensures
        r == surrounding(stack@),
{
    if stack.len() == 0 {
        None
    } else {
        Some(stack[stack.len() - 1])
    }
}

/// Performs one containment-walk step on the executable stack.
fn toggle_exec(stack: &mut Vec<usize>, obj: usize)
    ensures
        final(stack)@ == toggle(old(stack)@, obj),
{
    proof {
        lemma_find_first(stack@, obj);
    }
    let n = stack.len();
    let mut j: usize = 0;
    while j < n
        invariant
            n == stack@.len(),
            j <= n,
            forall|k: int| 0 <= k < j ==> stack@[k] != obj,
            stack@ == old(stack)@,
        decreases n - j,
    {
        if stack[j] == obj {
            proof {
                lemma_find_first(stack@, obj);
            }
            assert(stack@.contains(obj));
            assert(find_first(stack@, obj) == j);
            stack.remove(j);
            return;
        }
        j = j + 1;
    }
    assert(!stack@.contains(obj)) by {
        if stack@.contains(obj) {
            let w = choose|w: int| 0 <= w < stack@.len() && stack@[w] == obj;
            assert(stack@[w] != obj);
        }
    }
    stack.push(obj);
}

} // verus!
