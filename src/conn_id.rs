//! Connection identifiers: opaque byte strings of at most 20 bytes.
use vstd::prelude::*;
use vstd::slice::slice_to_vec;

verus! {

/// The most bytes a connection ID holds.
pub const MAX_CONN_ID_LEN: usize = 20;

/// An opaque connection identifier of at most 20 bytes. A new one is empty;
/// `set_id` gives it 1 to 20 bytes.
pub struct ConnectionID {
    id: Vec<u8>,
}

impl View for ConnectionID {
    type V = Seq<u8>;

    closed spec fn view(&self) -> Seq<u8> {
        self.id@
    }
}

impl ConnectionID {
    #[verifier::type_invariant]
    spec fn inv(self) -> bool {
        self.id@.len() <= MAX_CONN_ID_LEN
    }

    /// An empty connection ID.
    pub fn new() -> (r: Self)
        ensures
            r@ == Seq::<u8>::empty(),
    {
        ConnectionID { id: Vec::new() }
    }

    /// Replaces the bytes with `connection_id`, which must hold 1 to 20
    /// bytes: a longer or empty one is a fault of the caller.
    pub fn set_id(&mut self, connection_id: &[u8])
        requires
            1 <= connection_id@.len() <= MAX_CONN_ID_LEN,
        ensures
            final(self)@ == connection_id@,
    {
        self.id = slice_to_vec(connection_id);
    }

    /// The bytes of the connection ID; there are at most 20.
    pub fn get_id(&self) -> (r: &[u8])
        ensures
            r@ == self@,
            r@.len() <= MAX_CONN_ID_LEN,
    {
        proof {
            use_type_invariant(self);
        }
        self.id.as_slice()
    }
}

impl Clone for ConnectionID {
    fn clone(&self) -> (r: Self)
        ensures
            r@ == self@,
    {
        proof {
            use_type_invariant(self);
        }
        ConnectionID { id: self.id.clone() }
    }
}

} // verus!
