//! A triple buffer: one writer fills the back buffer, publishes it into the
//! middle, and one reader swaps the middle to the front when something fresh
//! is waiting. The three roles live in one state byte:
//! bit 6 = fresh, bits 5..4 = back slot, bits 3..2 = middle slot,
//! bits 1..0 = front slot.

use vstd::prelude::*;

verus! {

/// Slot index of the back (writer) buffer encoded in a state byte.
pub open spec fn back_slot(s: u8) -> u8 {
    (s >> 4u8) & 3u8
}

/// Slot index of the middle (hand-over) buffer encoded in a state byte.
pub open spec fn middle_slot(s: u8) -> u8 {
    (s >> 2u8) & 3u8
}

/// Slot index of the front (reader) buffer encoded in a state byte.
pub open spec fn front_slot(s: u8) -> u8 {
    s & 3u8
}

/// Whether the middle buffer holds a value the reader has not taken yet.
pub open spec fn fresh_bit(s: u8) -> bool {
    (s >> 6u8) & 1u8 == 1u8
}

/// A state byte is well formed when bit 7 is clear and the three roles are a
/// permutation of the slots 0, 1 and 2.
pub open spec fn state_ok(s: u8) -> bool {
    &&& s < 128
    &&& back_slot(s) < 3
    &&& middle_slot(s) < 3
    &&& front_slot(s) < 3
    &&& back_slot(s) != middle_slot(s)
    &&& back_slot(s) != front_slot(s)
    &&& middle_slot(s) != front_slot(s)
}

/// The contents of the three buffers by role, and the fresh flag.
pub struct BufferRoles<T> {
    pub back: T,
    pub middle: T,
    pub front: T,
    pub fresh: bool,
}

/// The roles after the writer publishes: back and middle trade places and
/// the middle becomes fresh.
pub open spec fn published<T>(r: BufferRoles<T>) -> BufferRoles<T> {
    BufferRoles { back: r.middle, middle: r.back, front: r.front, fresh: true }
}

/// The roles after the reader takes a fresh middle: middle and front trade
/// places and nothing is fresh any more.
pub open spec fn taken<T>(r: BufferRoles<T>) -> BufferRoles<T> {
    BufferRoles { back: r.back, middle: r.front, front: r.middle, fresh: false }
}

/// The roles after the writer replaces the back buffer with `v`.
pub open spec fn written<T>(r: BufferRoles<T>, v: T) -> BufferRoles<T> {
    BufferRoles { back: v, middle: r.middle, front: r.front, fresh: r.fresh }
}


/// What the writer writes and publishes is what the reader reads after its
/// next update, and that update finds something fresh.
pub proof fn lemma_read_after_publish<T>(r: BufferRoles<T>, v: T)
    ensures
        published(written(r, v)).fresh,
        taken(published(written(r, v))).front == v,
{
}

/// When the writer publishes twice before the reader updates, the reader
/// gets the later value.
pub proof fn lemma_latest_publication_wins<T>(r: BufferRoles<T>, a: T, b: T)
    ensures
        taken(published(written(published(written(r, a)), b))).front == b,
{
}

/// Writing and publishing never change what the reader holds.
pub proof fn lemma_front_untouched_by_writer<T>(r: BufferRoles<T>, v: T)
    ensures
        written(r, v).front == r.front,
        published(r).front == r.front,
{
}

/// After the reader takes the middle, nothing is fresh until the next
/// publication, and the writer's buffer is untouched.
pub proof fn lemma_take_clears_fresh<T>(r: BufferRoles<T>)
    ensures
        !taken(r).fresh,
        taken(r).back == r.back,
{
}

/// In a well-formed state the writer's slot is never the reader's slot.
pub proof fn lemma_writer_reader_apart(s: u8)
    requires
        state_ok(s),
    ensures
        back_slot(s) != front_slot(s),
        back_slot(s) != middle_slot(s),
{
}

/// Three buffers of `T` shared between one writer and one reader.
pub struct TripleBuffer<T> {
    buffers: Vec<T>,
    state: u8,
}

impl<T> View for TripleBuffer<T> {
    type V = BufferRoles<T>;

    closed spec fn view(&self) -> BufferRoles<T> {
        BufferRoles {
            back: self.buffers@[back_slot(self.state) as int],
            middle: self.buffers@[middle_slot(self.state) as int],
            front: self.buffers@[front_slot(self.state) as int],
            fresh: fresh_bit(self.state),
        }
    }
}

impl<T> TripleBuffer<T> {
    /// The state byte that encodes the roles.
    pub closed spec fn state_byte(&self) -> u8 {
        self.state
    }

    /// Three buffers and a well-formed state byte; every value of the type
    /// keeps it.
    #[verifier::type_invariant]
    closed spec fn inv(&self) -> bool {
        &&& self.buffers@.len() == 3
        &&& state_ok(self.state)
    }
}

/// The state byte after a publication: fresh set, back and middle swapped.
pub open spec fn published_state(s: u8) -> u8 {
    (64u8 | (middle_slot(s) << 4u8) | (back_slot(s) << 2u8) | front_slot(s)) as u8
}

/// The state byte after a successful update: fresh clear, middle and front
/// swapped.
pub open spec fn taken_state(s: u8) -> u8 {
    ((back_slot(s) << 4u8) | (front_slot(s) << 2u8) | middle_slot(s)) as u8
}

impl<T: Default> TripleBuffer<T> {
    /// Three buffers made by `T::default()`: back is slot 2, middle slot 1,
    /// front slot 0, nothing fresh. (Sharing between threads is the
    /// owner's business, e.g. behind a mutex; the roles and their hand-over
    /// are what this type keeps right.)
    pub fn new() -> (r: Self)
        ensures
            state_ok(r.state_byte()),
            r.state_byte() == 0b00_10_01_00u8,
            !r@.fresh,
            call_ensures(T::default, (), r@.back),
            call_ensures(T::default, (), r@.middle),
            call_ensures(T::default, (), r@.front),
    {
        let mut buffers: Vec<T> = Vec::new();
        buffers.push(T::default());
        buffers.push(T::default());
        buffers.push(T::default());
        let state: u8 = 0b00_10_01_00;
        assert(state_ok(state) && !fresh_bit(state)) by (bit_vector)
            requires
                state == 0b00_10_01_00u8,
        ;
        TripleBuffer { buffers, state }
    }

    /// The back buffer, for the writer to fill.
    pub fn write(&mut self) -> (r: &mut T)
        ensures
            *r == old(self)@.back,
            state_ok(old(self).state_byte()),
            final(self).state_byte() == old(self).state_byte(),
            final(self)@ == written(old(self)@, *final(r)),
    {
        proof {
            use_type_invariant(&*self);
        }
        let s = self.state;
        let back = (s >> 4) & 0b11;
        assert(back == back_slot(s));
        &mut self.buffers[back as usize]
    }

    /// Hands the back buffer over to the reader: back and middle trade
    /// places and the middle is marked fresh.
    pub fn publish(&mut self)
        ensures
            state_ok(old(self).state_byte()),
            state_ok(final(self).state_byte()),
            final(self).state_byte() == published_state(old(self).state_byte()),
            final(self)@ == published(old(self)@),
    {
        proof {
            use_type_invariant(&*self);
        }
        let s = self.state;
        let back = (s >> 4) & 0b11;
        let middle = (s >> 2) & 0b11;
        let front = s & 0b11;
        let new_state: u8 = (1u8 << 6) | (middle << 4) | (back << 2) | front;
        assert(back_slot(new_state) == middle_slot(s) && middle_slot(new_state) == back_slot(s)
            && front_slot(new_state) == front_slot(s) && fresh_bit(new_state) && new_state < 128
            && new_state == published_state(s)) by (bit_vector)
            requires
                back == (s >> 4u8) & 3u8,
                middle == (s >> 2u8) & 3u8,
                front == s & 3u8,
                new_state == (1u8 << 6u8) | (middle << 4u8) | (back << 2u8) | front,
        ;
        self.state = new_state;
    }

    /// Takes a fresh middle buffer to the front if there is one; returns
    /// whether it did. With nothing fresh the state byte stays as it was.
    pub fn update(&mut self) -> (r: bool)
        ensures
            state_ok(old(self).state_byte()),
            state_ok(final(self).state_byte()),
            r == old(self)@.fresh,
            r ==> final(self).state_byte() == taken_state(old(self).state_byte()),
            r ==> final(self)@ == taken(old(self)@),
            !r ==> final(self).state_byte() == old(self).state_byte(),
            !r ==> final(self)@ == old(self)@,
    {
        proof {
            use_type_invariant(&*self);
        }
        let s = self.state;
        let fresh = (s >> 6) & 1;
        assert((fresh == 0) == !fresh_bit(s)) by (bit_vector)
            requires
                fresh == (s >> 6u8) & 1u8,
        ;
        if fresh == 0 {
            return false;
        }
        let back = (s >> 4) & 0b11;
        let middle = (s >> 2) & 0b11;
        let front = s & 0b11;
        let new_state: u8 = (0u8 << 6) | (back << 4) | (front << 2) | middle;
        assert(back_slot(new_state) == back_slot(s) && middle_slot(new_state) == front_slot(s)
            && front_slot(new_state) == middle_slot(s) && !fresh_bit(new_state) && new_state < 128
            && new_state == taken_state(s)) by (bit_vector)
            requires
                back == (s >> 4u8) & 3u8,
                middle == (s >> 2u8) & 3u8,
                front == s & 3u8,
                new_state == (0u8 << 6u8) | (back << 4u8) | (front << 2u8) | middle,
        ;
        self.state = new_state;
        true
    }

    /// The front buffer, for the reader.
    pub fn read(&self) -> (r: &T)
        ensures
            state_ok(self.state_byte()),
            *r == self@.front,
    {
        proof {
            use_type_invariant(self);
        }
        let s = self.state;
        let front = s & 0b11;
        &self.buffers[front as usize]
    }
}

} // verus!
