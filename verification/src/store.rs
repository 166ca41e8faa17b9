//! The bounded, deduplicated store of verification codes.
//!
//! Codes are kept most-recently-found first. Two entries never share the
//! same `code` string; inserting a duplicate is a no-op. The store never
//! holds more than [`STORE_CAPACITY`] entries: an insertion beyond the
//! bound evicts the oldest entry.

use vstd::prelude::*;

verus! {

/// The number of codes the store keeps at most.
pub const STORE_CAPACITY: usize = 10;

/// A verification code extracted from one message.
pub struct VerificationCode {
    /// The digit string itself; the identity of the entry.
    pub code: String,
    /// Epoch milliseconds: the message's date, or the receipt time when
    /// the date was missing or unparsable.
    pub timestamp: i64,
    /// The sender address of the message the code came from.
    pub from: String,
    /// The subject of the message the code came from.
    pub subject: String,
}

/// The mathematical value of a [`VerificationCode`].
pub ghost struct CodeView {
    pub code: Seq<char>,
    pub timestamp: int,
    pub from: Seq<char>,
    pub subject: Seq<char>,
}

impl View for VerificationCode {
    type V = CodeView;

    open spec fn view(&self) -> CodeView {
        CodeView {
            code: self.code@,
            timestamp: self.timestamp as int,
            from: self.from@,
            subject: self.subject@,
        }
    }
}

impl Clone for VerificationCode {
    fn clone(&self) -> (r: Self)
        ensures
            r@ == self@,
    {
        VerificationCode {
            code: self.code.clone(),
            timestamp: self.timestamp,
            from: self.from.clone(),
            subject: self.subject.clone(),
        }
    }
}

/// The sequence of codes, newest first.
pub struct CodeStore {
    pub items: Vec<VerificationCode>,
}

/// The value of a sequence of stored codes.
pub open spec fn codes_view(s: Seq<VerificationCode>) -> Seq<CodeView> {
    s.map_values(|c: VerificationCode| c@)
}

impl View for CodeStore {
    type V = Seq<CodeView>;

    open spec fn view(&self) -> Seq<CodeView> {
        codes_view(self.items@)
    }
}

/// Whether some entry of `s` carries the digit string `code`.
pub open spec fn has_code(s: Seq<CodeView>, code: Seq<char>) -> bool {
    exists|i: int| 0 <= i < s.len() && s[i].code == code
}

/// What one insertion does: a duplicate leaves the store as it was; a new
/// code goes to the front, evicting the oldest entry when the store is full.
pub open spec fn store_insert(s: Seq<CodeView>, v: CodeView) -> Seq<CodeView> {
    if has_code(s, v.code) {
        s
    } else if s.len() < STORE_CAPACITY {
        seq![v] + s
    } else {
        seq![v] + s.drop_last()
    }
}

/// The store's invariant: within the bound, and no two entries share a code.
pub open spec fn store_well_formed(s: Seq<CodeView>) -> bool {
    &&& s.len() <= STORE_CAPACITY
    &&& forall|i: int, j: int| 0 <= i < j < s.len() ==> s[i].code != s[j].code
}

/// Law: inserting a code that is already present changes nothing at all,
/// so in particular the length and every entry's position stay as they were.
pub proof fn lemma_insert_duplicate_is_noop(s: Seq<CodeView>, v: CodeView)
    requires
        has_code(s, v.code),
    ensures
        store_insert(s, v) == s,
{
}

/// Law: an insertion never pushes the store past its capacity, and never
/// shrinks it; a store at the bound stays exactly at the bound.
pub proof fn lemma_insert_bounded(s: Seq<CodeView>, v: CodeView)
    requires
        s.len() <= STORE_CAPACITY,
    ensures
        store_insert(s, v).len() <= STORE_CAPACITY,
        store_insert(s, v).len() >= s.len(),
{
}

/// Law: an insertion preserves the store's invariant.
pub proof fn lemma_insert_well_formed(s: Seq<CodeView>, v: CodeView)
    requires
        store_well_formed(s),
    ensures
        store_well_formed(store_insert(s, v)),
{
    if !has_code(s, v.code) {
        if s.len() < STORE_CAPACITY {
            let r = seq![v] + s;
            assert forall|i: int, j: int| 0 <= i < j < r.len() implies r[i].code != r[j].code by {
                if i == 0 {
                    assert(r[j] == s[j - 1]);
                } else {
                    assert(r[i] == s[i - 1] && r[j] == s[j - 1]);
                }
            }
        } else {
            let r = seq![v] + s.drop_last();
            assert forall|i: int, j: int| 0 <= i < j < r.len() implies r[i].code != r[j].code by {
                if i == 0 {
                    assert(r[j] == s[j - 1]);
                } else {
                    assert(r[i] == s[i - 1] && r[j] == s[j - 1]);
                }
            }
        }
    }
}

impl CodeStore {
    /// An empty store.
    pub fn new() -> (s: Self)
        ensures
            s@ == Seq::<CodeView>::empty(),
    {
        let s = CodeStore { items: Vec::new() };
        proof {
            assert(s@ =~= Seq::<CodeView>::empty());
        }
        s
    }

    /// How many codes are held.
    pub fn len(&self) -> (n: usize)
        ensures
            n == self@.len(),
    {
        self.items.len()
    }

    /// Whether some entry already carries this digit string.
    pub fn contains_code(&self, code: &String) -> (r: bool)
        ensures
            r == has_code(self@, code@),
    {
        let n = self.items.len();
        let mut i: usize = 0;
        while i < n
            invariant
                i <= n,
                n == self.items@.len(),
                forall|j: int| 0 <= j < i ==> self@[j].code != code@,
            decreases n - i,
        {
            if self.items[i].code.eq(code) {
                assert(self@[i as int].code == code@);
                return true;
            }
            i += 1;
        }
        false
    }

    /// Insert one code: a no-op on a duplicate, otherwise the new entry goes
    /// to the front and the oldest entry leaves when the store is full.
    pub fn insert(&mut self, vc: VerificationCode)
        requires
            store_well_formed(old(self)@),
        ensures
            final(self)@ == store_insert(old(self)@, vc@),
            store_well_formed(final(self)@),
    {
        proof {
            lemma_insert_well_formed(self@, vc@);
        }
        let ghost old_view = self@;
        if self.contains_code(&vc.code) {
            return;
        }
        let ghost v = vc@;
        let ghost before = self.items@;
        self.items.insert(0, vc);
        proof {
            assert forall|j: int| 0 <= j < self.items@.len() implies (#[trigger] self@[j]) == (
            seq![v] + old_view)[j] by {
                if j == 0 {
                    assert(self.items@[0]@ == v);
                } else {
                    assert(self.items@[j] == before[j - 1]);
                    assert(old_view[j - 1] == before[j - 1]@);
                }
            }
            assert(self@ =~= seq![v] + old_view);
        }
        if self.items.len() > STORE_CAPACITY {
            let ghost mid = self.items@;
            self.items.pop();
            proof {
                assert forall|j: int| 0 <= j < self.items@.len() implies (#[trigger] self@[j])
                    == (seq![v] + old_view.drop_last())[j] by {
                    assert(self.items@[j] == mid[j]);
                    assert(codes_view(mid)[j] == (seq![v] + old_view)[j]);
                }
                assert(self@ =~= seq![v] + old_view.drop_last());
            }
        }
    }

    /// A copy of every entry, newest first.
    pub fn get_all(&self) -> (v: Vec<VerificationCode>)
        ensures
            codes_view(v@) == self@,
    {
        let n = self.items.len();
        let mut v: Vec<VerificationCode> = Vec::new();
        let mut i: usize = 0;
        while i < n
            invariant
                i <= n,
                n == self.items@.len(),
                v@.len() == i,
                forall|j: int| 0 <= j < i ==> (#[trigger] v@[j])@ == self.items@[j]@,
            decreases n - i,
        {
            let c = self.items[i].clone();
            v.push(c);
            i += 1;
        }
        proof {
            assert forall|j: int| 0 <= j < v@.len() implies (#[trigger] codes_view(v@)[j])
                == self@[j] by {
                assert(v@[j]@ == self.items@[j]@);
            }
            assert(codes_view(v@) =~= self@);
        }
        v
    }
}

} // verus!
