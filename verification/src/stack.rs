//! The runtime environment: one stack of values, overlaid with nested
//! frames of names.
//!
//! Every call of a block opens a frame. The frame has a floor, the place on
//! the stack where the block's inputs start, and a table that binds names to
//! places counted from that floor. Nothing below the innermost floor can be
//! popped or named, so a block sees of its caller's values exactly its
//! inputs.

use crate::types::{value_views, Value, ValueView};
use vstd::prelude::*;

verus! {

/// Why an operation on the stack was not carried out.
#[derive(Clone, Copy, Debug, PartialEq, Eq, Structural)]
pub enum StackError {
    /// There is no frame to work on.
    NoFrame,
    /// The innermost frame holds fewer values than the operation needs.
    Underflow,
    /// No frame binds the name to a value that is still on the stack.
    UnboundName,
}

/// One name of a frame and the place it stands for, counted from the
/// frame's floor.
#[derive(Debug)]
struct Binding {
    name: String,
    position: usize,
}

/// A stack in the context of the VM.
///
/// It holds the stack of data, and for each open scope the floor of the
/// scope and its names.
#[derive(Debug)]
pub struct Stack {
    // The values on the stack
    data: Vec<Value>,
    // The floor of each open scope, outermost first
    floors: Vec<usize>,
    // The names of each open scope: a list in which a later binding of a
    // name hides an earlier one
    names: Vec<Vec<Binding>>,
}

/// What a stack holds: the values from bottom to top, the floor of each
/// frame from the outermost to the innermost, and the names of each frame,
/// each bound to a place counted from the floor of its frame.
pub struct StackView {
    pub data: Seq<ValueView>,
    pub floors: Seq<nat>,
    pub frames: Seq<Map<Seq<char>, nat>>,
}

impl StackView {
    /// Each frame has a floor, no floor lies below that of an enclosing
    /// frame, and no floor lies above the top of the stack.
    pub open spec fn wf(self) -> bool {
        &&& self.floors.len() == self.frames.len()
        &&& forall|i: int, j: int|
            0 <= i <= j < self.floors.len() ==> self.floors[i] <= self.floors[j]
        &&& forall|i: int| 0 <= i < self.floors.len() ==> self.floors[i] <= self.data.len()
    }

    /// The floor of the innermost frame; the bottom of the stack where no
    /// frame is open.
    pub open spec fn floor(self) -> nat {
        if self.floors.len() == 0 {
            0
        } else {
            self.floors.last()
        }
    }

    /// The number of values that the innermost frame can reach.
    pub open spec fn reach(self) -> int {
        self.data.len() - self.floor()
    }

    /// The stack with a new, empty frame whose floor lies `arity` values
    /// below the top. The values stay where they are.
    pub open spec fn extended(self, arity: nat) -> StackView {
        StackView {
            data: self.data,
            floors: self.floors.push((self.data.len() - arity) as nat),
            frames: self.frames.push(Map::empty()),
        }
    }

    /// The stack without its innermost frame: the top `arity` values are
    /// moved down to the frame's floor and all else above the floor is gone.
    pub open spec fn contracted(self, arity: nat) -> StackView {
        StackView {
            data: self.data.take(self.floor() as int) + self.data.subrange(
                self.data.len() - arity,
                self.data.len() as int,
            ),
            floors: self.floors.drop_last(),
            frames: self.frames.drop_last(),
        }
    }

    /// The stack with one more value on top.
    pub open spec fn pushed(self, value: ValueView) -> StackView {
        StackView { data: self.data.push(value), ..self }
    }

    /// The stack without its top value.
    pub open spec fn popped(self) -> StackView {
        StackView { data: self.data.drop_last(), ..self }
    }

    /// The stack with the innermost frame's table replaced.
    pub open spec fn with_table(self, table: Map<Seq<char>, nat>) -> StackView {
        StackView { frames: self.frames.update(self.frames.len() - 1, table), ..self }
    }

    /// The stack with `name` bound, in the innermost frame, to the top
    /// value.
    pub open spec fn named(self, name: Seq<char>) -> StackView {
        self.with_table(self.frames.last().insert(name, (self.reach() - 1) as nat))
    }

    /// The stack with the `names` bound, in the innermost frame, to the top
    /// values: the first name to the lowest of them, the last name to the
    /// top. A name that occurs twice stands for the higher place.
    pub open spec fn named_many(self, names: Seq<Seq<char>>) -> StackView {
        self.with_table(
            bound_all(
                self.frames.last(),
                names,
                (self.reach() - names.len()) as nat,
                names.len(),
            ),
        )
    }

    /// The place on the stack that `name` stands for among the outermost
    /// `k` frames: that of the innermost of them that binds the name, where
    /// a value still stands at that place.
    pub open spec fn lookup_within(self, name: Seq<char>, k: nat) -> Option<int>
        decreases k,
    {
        if k == 0 || k > self.frames.len() {
            None
        } else if self.frames[k - 1].dom().contains(name) {
            if self.floors[k - 1] + self.frames[k - 1][name] < self.data.len() {
                Some((self.floors[k - 1] + self.frames[k - 1][name]) as int)
            } else {
                None
            }
        } else {
            self.lookup_within(name, (k - 1) as nat)
        }
    }

    /// The place on the stack that `name` stands for: frames are searched
    /// from the innermost to the outermost.
    pub open spec fn lookup(self, name: Seq<char>) -> Option<int> {
        self.lookup_within(name, self.frames.len())
    }

    /// Whether any frame binds `name`.
    pub open spec fn binds(self, name: Seq<char>) -> bool {
        exists|i: int| 0 <= i < self.frames.len() && #[trigger] self.frames[i].dom().contains(name)
    }

    /// The stack with the value at `place` replaced.
    pub open spec fn assigned(self, place: int, value: ValueView) -> StackView {
        StackView { data: self.data.update(place, value), ..self }
    }
}

/// The table `table` with the first `k` of the `names` bound to the places
/// `base`, `base + 1`, and so on.
pub open spec fn bound_all(
    table: Map<Seq<char>, nat>,
    names: Seq<Seq<char>>,
    base: nat,
    k: nat,
) -> Map<Seq<char>, nat>
    decreases k,
{
    if k == 0 || k > names.len() {
        table
    } else {
        bound_all(table, names, base, (k - 1) as nat).insert(names[k - 1], (base + k - 1) as nat)
    }
}

/// The table that a list of bindings stands for: a later binding of a name
/// hides an earlier one.
spec fn table_of(bindings: Seq<Binding>) -> Map<Seq<char>, nat>
    decreases bindings.len(),
{
    if bindings.len() == 0 {
        Map::empty()
    } else {
        table_of(bindings.drop_last()).insert(
            bindings.last().name@,
            bindings.last().position as nat,
        )
    }
}

spec fn tables_of(frames: Seq<Vec<Binding>>) -> Seq<Map<Seq<char>, nat>> {
    Seq::new(frames.len(), |i: int| table_of(frames[i]@))
}

spec fn floors_of(floors: Seq<usize>) -> Seq<nat> {
    Seq::new(floors.len(), |i: int| floors[i] as nat)
}

impl View for Stack {
    type V = StackView;

    closed spec fn view(&self) -> StackView {
        StackView {
            data: value_views(self.data@),
            floors: floors_of(self.floors@),
            frames: tables_of(self.names@),
        }
    }
}

/// The place that `name` is bound to in a list of bindings, if it is bound.
fn find(bindings: &Vec<Binding>, name: &String) -> (r: Option<usize>)
    ensures
        match r {
            Some(p) => table_of(bindings@).dom().contains(name@) && table_of(bindings@)[name@]
                == p,
            None => !table_of(bindings@).dom().contains(name@),
        },
{
    let mut i: usize = bindings.len();
    assert(bindings@.take(i as int) =~= bindings@);
    while i > 0
        invariant
            i <= bindings.len(),
            table_of(bindings@).dom().contains(name@) == table_of(
                bindings@.take(i as int),
            ).dom().contains(name@),
            table_of(bindings@).dom().contains(name@) ==> table_of(bindings@)[name@] == table_of(
                bindings@.take(i as int),
            )[name@],
        decreases i,
    {
        assert(bindings@.take(i as int).drop_last() =~= bindings@.take(i - 1));
        assert(bindings@.take(i as int).last() == bindings@[i - 1]);
        if bindings[i - 1].name == *name {
            return Some(bindings[i - 1].position);
        }
        i = i - 1;
    }
    assert(bindings@.take(0) =~= Seq::<Binding>::empty());
    None
}

impl Stack {
    /// The stack keeps to the shape that every operation relies on.
    pub open spec fn wf(&self) -> bool {
        self@.wf()
    }

    /// Creates a new top level stack: no values, and one open frame at
    /// the bottom.
    pub fn new() -> (s: Stack)
        ensures
            s.wf(),
            s@ == (StackView {
                data: Seq::empty(),
                floors: seq![0nat],
                frames: seq![Map::<Seq<char>, nat>::empty()],
            }),
    {
        let mut floors: Vec<usize> = Vec::new();
        floors.push(0);
        let mut names: Vec<Vec<Binding>> = Vec::new();
        names.push(Vec::new());
        let s = Stack { data: Vec::new(), floors: floors, names: names };
        assert(s@.data =~= Seq::empty());
        assert(s@.floors =~= seq![0nat]);
        assert(s@.frames =~= seq![Map::<Seq<char>, nat>::empty()]);
        s
    }

    /// The number of values on the stack.
    pub fn len(&self) -> (n: usize)
        ensures
            n == self@.data.len(),
    {
        self.data.len()
    }

    /// The number of open frames.
    pub fn depth(&self) -> (n: usize)
        requires
            self.wf(),
        ensures
            n == self@.frames.len(),
            n == self@.floors.len(),
    {
        self.names.len()
    }

    /// The floor of the innermost frame.
    fn floor(&self) -> (f: usize)
        requires
            self.wf(),
        ensures
            f == self@.floor(),
            f <= self.data.len(),
    {
        if self.floors.len() == 0 {
            0
        } else {
            self.floors[self.floors.len() - 1]
        }
    }

    /// The number of values that the innermost frame can reach.
    pub fn reach(&self) -> (n: usize)
        requires
            self.wf(),
        ensures
            n == self@.reach(),
    {
        self.data.len() - self.floor()
    }

    /// Creates a new scope.
    ///
    /// `arity` is the number of values, from the top of the stack, that the
    /// new scope can reach. They stay where they are. Fails with `Underflow`,
    /// and changes nothing, where the current scope cannot reach that many.
    pub fn extend(&mut self, arity: usize) -> (r: Result<(), StackError>)
        requires
            old(self).wf(),
        ensures
            final(self).wf(),
            arity <= old(self)@.reach() ==> r is Ok && final(self)@ == old(self)@.extended(
                arity as nat,
            ),
            arity > old(self)@.reach() ==> r == Err::<(), StackError>(StackError::Underflow)
                && final(self)@ == old(self)@,
    {
        if arity > self.reach() {
            return Err(StackError::Underflow);
        }
        let floor: usize = self.data.len() - arity;
        self.floors.push(floor);
        self.names.push(Vec::new());
        proof {
            assert(self@.floors =~= old(self)@.floors.push(floor as nat));
            assert(self@.frames =~= old(self)@.frames.push(Map::empty()));
        }
        Ok(())
    }

    /// Leaves a scope.
    ///
    /// `arity` is the number of values, from the top of the stack, that are
    /// handed to the enclosing scope: they move down to the floor of the
    /// scope that ends, and all else above that floor is dropped, as are the
    /// names of the scope. Fails with `NoFrame` where no scope is open, with
    /// `Underflow` where the scope holds fewer than `arity` values, and
    /// changes nothing then.
    pub fn contract(&mut self, arity: usize) -> (r: Result<(), StackError>)
        requires
            old(self).wf(),
        ensures
            final(self).wf(),
            old(self)@.frames.len() == 0 ==> r == Err::<(), StackError>(StackError::NoFrame)
                && final(self)@ == old(self)@,
            old(self)@.frames.len() > 0 && arity > old(self)@.reach() ==> r == Err::<
                (),
                StackError,
            >(StackError::Underflow) && final(self)@ == old(self)@,
            old(self)@.frames.len() > 0 && arity <= old(self)@.reach() ==> r is Ok && final(self)@
                == old(self)@.contracted(arity as nat),
    {
        if self.floors.len() == 0 {
            return Err(StackError::NoFrame);
        }
        if arity > self.reach() {
            return Err(StackError::Underflow);
        }
        let floor: usize = self.floor();
        let ghost before = self.data@;
        self.floors.pop();
        self.names.pop();
        // Take the values to keep off the top
        let mut kept: Vec<Value> = Vec::new();
        let mut i: usize = 0;
        while i < arity
            invariant
                i <= arity,
                floor + arity <= before.len(),
                self.data@ == before.take(before.len() - i),
                kept.len() == i,
                forall|j: int| 0 <= j < i ==> kept@[j] == before[before.len() - 1 - j],
                self.floors@ == old(self).floors@.drop_last(),
                self.names@ == old(self).names@.drop_last(),
            decreases arity - i,
        {
            let v = self.data.pop().unwrap();
            kept.push(v);
            i = i + 1;
        }
        // Drop what the scope left behind
        self.data.truncate(floor);
        assert(self.data@ =~= before.take(floor as int));
        // Put the kept values back, lowest first
        while i > 0
            invariant
                i <= arity,
                floor + arity <= before.len(),
                kept.len() == i,
                forall|j: int| 0 <= j < i ==> kept@[j] == before[before.len() - 1 - j],
                self.data@ == before.take(floor as int) + before.subrange(
                    before.len() - arity,
                    before.len() - i,
                ),
                self.floors@ == old(self).floors@.drop_last(),
                self.names@ == old(self).names@.drop_last(),
            decreases i,
        {
            let v = kept.pop().unwrap();
            self.data.push(v);
            assert(before.subrange(before.len() - arity, before.len() - i).push(
                before[before.len() - i],
            ) =~= before.subrange(before.len() - arity, before.len() - i + 1));
            assert((before.take(floor as int) + before.subrange(
                before.len() - arity,
                before.len() - i,
            )).push(before[before.len() - i]) =~= before.take(floor as int) + before.subrange(
                before.len() - arity,
                before.len() - i + 1,
            ));
            i = i - 1;
        }
        proof {
            assert(self@.floors =~= old(self)@.floors.drop_last());
            assert(self@.frames =~= old(self)@.frames.drop_last());
            assert(self@.data =~= old(self)@.contracted(arity as nat).data);
        }
        Ok(())
    }

    /// Pushes a value onto the stack.
    pub fn push(&mut self, value: Value)
        requires
            old(self).wf(),
        ensures
            final(self).wf(),
            final(self)@ == old(self)@.pushed(value@),
    {
        self.data.push(value);
        assert(self@.data =~= old(self)@.data.push(value@));
    }

    /// Pops a value off the stack: the top value, or `None`, with the stack
    /// unchanged, where the innermost frame holds no value.
    pub fn pop(&mut self) -> (r: Option<Value>)
        requires
            old(self).wf(),
        ensures
            final(self).wf(),
            old(self)@.reach() > 0 ==> r is Some && r->0@ == old(self)@.data.last() && final(self)@
                == old(self)@.popped(),
            old(self)@.reach() <= 0 ==> r is None && final(self)@ == old(self)@,
    {
        if self.reach() == 0 {
            return None;
        }
        let r = self.data.pop();
        assert(self@.data =~= old(self)@.data.drop_last());
        r
    }

    /// Assigns a new name to the top value on the stack.
    ///
    /// One value can have several names, and a name given again moves to the
    /// new place. Fails with `NoFrame` where no scope is open, with
    /// `Underflow` where the scope holds no value, and changes nothing then.
    pub fn name(&mut self, name: String) -> (r: Result<(), StackError>)
        requires
            old(self).wf(),
        ensures
            final(self).wf(),
            old(self)@.frames.len() == 0 ==> r == Err::<(), StackError>(StackError::NoFrame)
                && final(self)@ == old(self)@,
            old(self)@.frames.len() > 0 && old(self)@.reach() <= 0 ==> r == Err::<
                (),
                StackError,
            >(StackError::Underflow) && final(self)@ == old(self)@,
            old(self)@.frames.len() > 0 && old(self)@.reach() > 0 ==> r is Ok && final(self)@
                == old(self)@.named(name@),
    {
        if self.names.len() == 0 {
            return Err(StackError::NoFrame);
        }
        let reach: usize = self.reach();
        if reach == 0 {
            return Err(StackError::Underflow);
        }
        let last: usize = self.names.len() - 1;
        let mut frame: Vec<Binding> = self.names.pop().unwrap();
        let ghost table = table_of(frame@);
        frame.push(Binding { name: name, position: reach - 1 });
        assert(frame@.drop_last() =~= old(self).names@[last as int]@);
        self.names.push(frame);
        proof {
            assert(self@.frames =~= old(self)@.frames.update(
                last as int,
                table.insert(name@, (reach - 1) as nat),
            ));
            assert(self@.floors =~= old(self)@.floors);
        }
        Ok(())
    }

    /// Assigns new names to the top values of the stack, from bottom to top.
    ///
    /// If the stack is `[8, 6, 7, 5]`, the names `A` and `B` give
    /// `[8, 6, 7@A, 5@B]`. Fails with `NoFrame` where no scope is open, with
    /// `Underflow` where the scope holds fewer values than there are names,
    /// and changes nothing then.
    pub fn name_many(&mut self, names: Vec<String>) -> (r: Result<(), StackError>)
        requires
            old(self).wf(),
        ensures
            final(self).wf(),
            old(self)@.frames.len() == 0 ==> r == Err::<(), StackError>(StackError::NoFrame)
                && final(self)@ == old(self)@,
            old(self)@.frames.len() > 0 && names.len() > old(self)@.reach() ==> r == Err::<
                (),
                StackError,
            >(StackError::Underflow) && final(self)@ == old(self)@,
            old(self)@.frames.len() > 0 && names.len() <= old(self)@.reach() ==> r is Ok
                && final(self)@ == old(self)@.named_many(crate::types::string_views(names@)),
    {
        if self.names.len() == 0 {
            return Err(StackError::NoFrame);
        }
        let reach: usize = self.reach();
        if names.len() > reach {
            return Err(StackError::Underflow);
        }
        let base: usize = reach - names.len();
        let last: usize = self.names.len() - 1;
        let ghost texts = crate::types::string_views(names@);
        let mut frame: Vec<Binding> = self.names.pop().unwrap();
        let ghost table = table_of(frame@);
        let mut i: usize = 0;
        while i < names.len()
            invariant
                i <= names.len(),
                base + names.len() == reach,
                texts == crate::types::string_views(names@),
                table_of(frame@) == bound_all(table, texts, base as nat, i as nat),
            decreases names.len() - i,
        {
            let ghost shorter = frame@;
            frame.push(Binding { name: names[i].clone(), position: base + i });
            assert(frame@.drop_last() =~= shorter);
            assert(texts[i as int] == names@[i as int]@);
            i = i + 1;
        }
        self.names.push(frame);
        proof {
            assert(self@.frames =~= old(self)@.frames.update(
                last as int,
                bound_all(table, texts, base as nat, names.len() as nat),
            ));
            assert(self@.floors =~= old(self)@.floors);
        }
        Ok(())
    }

    /// The place of the value that `name` stands for, searching the frames
    /// from the innermost to the outermost.
    fn locate(&self, name: &String) -> (r: Option<usize>)
        requires
            self.wf(),
        ensures
            match r {
                Some(p) => self@.lookup(name@) == Some(p as int) && p < self.data.len(),
                None => self@.lookup(name@) is None,
            },
    {
        let mut k: usize = self.names.len();
        while k > 0
            invariant
                self.wf(),
                k <= self.names.len(),
                self@.lookup(name@) == self@.lookup_within(name@, k as nat),
            decreases k,
        {
            assert(self@.frames[k - 1] == table_of(self.names@[k - 1]@));
            assert(self@.floors[k - 1] == self.floors@[k - 1] as nat);
            assert(self@.data.len() == self.data.len());
            match find(&self.names[k - 1], name) {
                Some(offset) => {
                    let floor: usize = self.floors[k - 1];
                    return match floor.checked_add(offset) {
                        Some(p) => if p < self.data.len() {
                            Some(p)
                        } else {
                            None
                        },
                        None => None,
                    };
                },
                None => {},
            }
            k = k - 1;
        }
        None
    }

    /// Get a named value from this stack if it exists.
    ///
    /// The frames are searched from the innermost to the outermost; the
    /// innermost one that binds the name decides. The result is a copy of
    /// the value that stands at the bound place, or `None` where no frame
    /// binds the name or no value stands there any more.
    pub fn get_named(&self, name: String) -> (r: Option<Value>)
        requires
            self.wf(),
        ensures
            match self@.lookup(name@) {
                Some(p) => r is Some && r->0@ == self@.data[p],
                None => r is None,
            },
    {
        match self.locate(&name) {
            Some(p) => Some(self.data[p].clone()),
            None => None,
        }
    }

    /// Set a named value on this stack.
    ///
    /// The frames are searched as `get_named` does, and the value at the
    /// bound place is overwritten. A name is never created by this: where
    /// the search finds nothing, the stack stays as it is and the result is
    /// `UnboundName`.
    pub fn set_named(&mut self, name: String, value: Value) -> (r: Result<(), StackError>)
        requires
            old(self).wf(),
        ensures
            final(self).wf(),
            match old(self)@.lookup(name@) {
                Some(p) => r is Ok && final(self)@ == old(self)@.assigned(p, value@),
                None => r == Err::<(), StackError>(StackError::UnboundName) && final(self)@ == old(
                    self,
                )@,
            },
    {
        match self.locate(&name) {
            Some(p) => {
                self.data.set(p, value);
                assert(self@.data =~= old(self)@.data.update(p as int, value@));
                Ok(())
            },
            None => Err(StackError::UnboundName),
        }
    }
}

/// A name stands for a place on the stack, at or above the floor of a
/// frame that binds it: never for a place below that floor, and never for
/// one from which the value is gone.
pub proof fn lemma_place_is_within_frame(s: StackView, name: Seq<char>, k: nat)
    requires
        s.wf(),
        s.lookup_within(name, k) is Some,
    ensures
        0 <= s.lookup_within(name, k)->0 < s.data.len(),
        exists|i: int|
            0 <= i < s.frames.len() && #[trigger] s.frames[i].dom().contains(name) && s.floors[i]
                <= s.lookup_within(name, k)->0,
    decreases k,
{
    if k == 0 || k > s.frames.len() {
    } else if s.frames[k - 1].dom().contains(name) {
        assert(s.floors[k - 1] <= s.lookup_within(name, k)->0);
    } else {
        lemma_place_is_within_frame(s, name, (k - 1) as nat);
    }
}

/// A name that no frame binds stands for no place.
pub proof fn lemma_unbound_has_no_place(s: StackView, name: Seq<char>, k: nat)
    requires
        !s.binds(name),
    ensures
        s.lookup_within(name, k) is None,
    decreases k,
{
    if k == 0 || k > s.frames.len() {
    } else {
        assert(!s.frames[k - 1].dom().contains(name));
        lemma_unbound_has_no_place(s, name, (k - 1) as nat);
    }
}

/// The search through the outermost `k` frames reads only those frames,
/// their floors, and the values on the stack.
pub proof fn lemma_lookup_reads_outer_frames(a: StackView, b: StackView, name: Seq<char>, k: nat)
    requires
        k <= a.frames.len(),
        k <= b.frames.len(),
        k <= a.floors.len(),
        k <= b.floors.len(),
        a.frames.take(k as int) == b.frames.take(k as int),
        a.floors.take(k as int) == b.floors.take(k as int),
        a.data == b.data,
    ensures
        a.lookup_within(name, k) == b.lookup_within(name, k),
    decreases k,
{
    if k > 0 {
        assert(a.frames[k - 1] == a.frames.take(k as int)[k - 1]);
        assert(b.frames[k - 1] == b.frames.take(k as int)[k - 1]);
        assert(a.floors[k - 1] == a.floors.take(k as int)[k - 1]);
        assert(b.floors[k - 1] == b.floors.take(k as int)[k - 1]);
        assert(a.frames.take(k - 1) =~= a.frames.take(k as int).take(k - 1));
        assert(b.frames.take(k - 1) =~= b.frames.take(k as int).take(k - 1));
        assert(a.floors.take(k - 1) =~= a.floors.take(k as int).take(k - 1));
        assert(b.floors.take(k - 1) =~= b.floors.take(k as int).take(k - 1));
        lemma_lookup_reads_outer_frames(a, b, name, (k - 1) as nat);
    }
}

/// Names of enclosing frames stay visible inside a nested block: entering
/// a block changes the place of no name.
pub proof fn lemma_outer_names_visible_inside(s: StackView, arity: nat, name: Seq<char>)
    requires
        s.wf(),
        arity <= s.reach(),
    ensures
        s.extended(arity).lookup(name) == s.lookup(name),
{
    let inner = s.extended(arity);
    assert(!inner.frames[inner.frames.len() - 1].dom().contains(name));
    assert(inner.frames.take(s.frames.len() as int) =~= s.frames);
    assert(inner.floors.take(s.floors.len() as int) =~= s.floors);
    assert(s.frames.take(s.frames.len() as int) =~= s.frames);
    assert(s.floors.take(s.floors.len() as int) =~= s.floors);
    lemma_lookup_reads_outer_frames(inner, s, name, s.frames.len());
}

/// A name bound inside a block's frame is not visible after the block has
/// returned. `inside` is any state within the block: its frames are those
/// of the caller's state `before` and, innermost, the block's own, with
/// whatever names the block has bound. Once the block's frame is left, the
/// frames are the caller's again, and a name that the caller had not bound
/// stands for nothing.
pub proof fn lemma_inner_names_end_with_frame(
    before: StackView,
    inside: StackView,
    arity_out: nat,
    name: Seq<char>,
)
    requires
        before.wf(),
        inside.wf(),
        inside.frames.len() == before.frames.len() + 1,
        inside.frames.drop_last() == before.frames,
        inside.floors.drop_last() == before.floors,
        !before.binds(name),
    ensures
        inside.contracted(arity_out).frames == before.frames,
        inside.contracted(arity_out).floors == before.floors,
        !inside.contracted(arity_out).binds(name),
        inside.contracted(arity_out).lookup(name) is None,
{
    let after = inside.contracted(arity_out);
    assert forall|i: int| 0 <= i < after.frames.len() implies !(#[trigger] after.frames[i]).dom().contains(
        name,
    ) by {
        assert(before.frames[i].dom().contains(name) == after.frames[i].dom().contains(name));
    }
    lemma_unbound_has_no_place(after, name, after.frames.len());
}

/// A block that names its input and returns leaves the name behind: after
/// `extend`, `name` and `contract`, a name that was unbound before is
/// unbound again, though it stood for the top value in between.
pub proof fn lemma_frame_isolation(s: StackView, arity_in: nat, arity_out: nat, name: Seq<char>)
    requires
        s.wf(),
        0 < arity_in <= s.reach(),
        !s.binds(name),
    ensures
        s.extended(arity_in).named(name).lookup(name) == Some(s.data.len() - 1),
        s.extended(arity_in).named(name).contracted(arity_out).lookup(name) is None,
{
    let entered = s.extended(arity_in);
    let inside = entered.named(name);
    assert(inside.frames[inside.frames.len() - 1].dom().contains(name));
    assert(inside.frames.drop_last() =~= s.frames);
    assert(inside.floors.drop_last() =~= s.floors);
    lemma_inner_names_end_with_frame(s, inside, arity_out, name);
}

} // verus!
