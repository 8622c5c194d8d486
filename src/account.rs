use vstd::prelude::*;

verus! {

/// Longest identifier, in bytes, that an account can carry.
pub const MAX_ACCOUNT_LEN: usize = 29;

/// An opaque holder identifier: up to 29 bytes, stored zero-padded so that
/// two accounts are equal exactly when their bytes are.
#[derive(Clone, Copy, Debug, Eq, Hash)]
pub struct Account {
    len: u8,
    bytes: [u8; 29],
}

impl Account {
    /// The identifier bytes of the account.
    pub closed spec fn id(self) -> Seq<u8> {
        self.bytes@.subrange(0, self.len as int)
    }

    /// The padding past the identifier is all zero.
    #[verifier::type_invariant]
    spec fn canonical(self) -> bool {
        &&& self.len <= 29
        &&& forall|i: int| self.len <= i < 29 ==> self.bytes@[i] == 0
    }

    /// Builds the account for an identifier of at most 29 bytes.
    pub fn new(id: &[u8]) -> (r: Option<Account>)
        ensures
            id@.len() <= 29 <==> r.is_some(),
            r matches Some(a) ==> a.id() == id@,
    {
        if id.len() > MAX_ACCOUNT_LEN {
            return None;
        }
        let mut bytes: [u8; 29] = [0u8; 29];
        let mut i: usize = 0;
        while i < id.len()
            invariant
                i <= id@.len() <= 29,
                forall|j: int| 0 <= j < i ==> bytes@[j] == id@[j],
                forall|j: int| id@.len() <= j < 29 ==> bytes@[j] == 0,
            decreases id@.len() - i,
        {
            bytes[i] = id[i];
            i = i + 1;
        }
        let a = Account { len: id.len() as u8, bytes };
        assert(a.id() =~= id@);
        Some(a)
    }

    /// The identifier bytes, as a fresh vector.
    pub fn to_vec(&self) -> (r: Vec<u8>)
        ensures
            r@ == self.id(),
    {
        proof {
            use_type_invariant(self);
        }
        let mut out: Vec<u8> = Vec::new();
        let mut i: usize = 0;
        while i < self.len as usize
            invariant
                self.len <= 29,
                i <= self.len,
                out@ == self.id().subrange(0, i as int),
            decreases self.len - i,
        {
            out.push(self.bytes[i]);
            i = i + 1;
            assert(out@ =~= self.id().subrange(0, i as int));
        }
        assert(self.id().subrange(0, i as int) =~= self.id());
        out
    }
}

impl PartialEq for Account {
    fn eq(&self, o: &Account) -> (r: bool) {
        if self.len != o.len {
            return false;
        }
        let mut i: usize = 0;
        while i < MAX_ACCOUNT_LEN
            invariant
                i <= 29,
                self.len == o.len,
                forall|j: int| 0 <= j < i ==> self.bytes@[j] == o.bytes@[j],
            decreases 29 - i,
        {
            if self.bytes[i] != o.bytes[i] {
                return false;
            }
            i = i + 1;
        }
        assert(self.bytes =~= o.bytes);
        true
    }
}

impl vstd::std_specs::cmp::PartialEqSpecImpl for Account {
    open spec fn obeys_eq_spec() -> bool {
        true
    }

    open spec fn eq_spec(&self, o: &Account) -> bool {
        *self == *o
    }
}

} // verus!
