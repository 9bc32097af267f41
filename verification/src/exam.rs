//! The graduation exam roles a selected course can be assigned to.

use vstd::prelude::*;

verus! {

/// One of the five graduation exam roles.
///
/// `Lf1` and `Lf2` are the two advanced-level exams; `Prf3`, `Prf4` and `Pk5`
/// are the three other exam roles.
#[derive(Debug, PartialEq, Eq, Clone, Copy, Structural)]
pub enum Exam {
    Lf1,
    Lf2,
    Prf3,
    Prf4,
    Pk5,
}

/// All exam roles, in their fixed order.
pub open spec fn all_exams() -> Seq<Exam> {
    seq![Exam::Lf1, Exam::Lf2, Exam::Prf3, Exam::Prf4, Exam::Pk5]
}

impl Exam {
    /// Whether this role is one of the two advanced-level exams.
    pub open spec fn spec_is_lk(&self) -> bool {
        *self == Exam::Lf1 || *self == Exam::Lf2
    }

    /// Whether a course may hold this role, given whether the course is
    /// eligible as an advanced-level subject.
    pub open spec fn open_to(&self, lk_eligible: bool) -> bool {
        !self.spec_is_lk() || lk_eligible
    }

    /// The text shown for this role.
    pub open spec fn spec_label(&self) -> Seq<char> {
        match *self {
            Exam::Lf1 => "1. LF"@,
            Exam::Lf2 => "2. LF"@,
            Exam::Prf3 => "3. PrF"@,
            Exam::Prf4 => "4. PrF"@,
            Exam::Pk5 => "5. PK"@,
        }
    }

    /// All exam roles, in their fixed order.
    pub fn list() -> (r: Vec<Exam>)
        ensures
            r@ == all_exams(),
    {
        let mut r: Vec<Exam> = Vec::new();
        r.push(Exam::Lf1);
        r.push(Exam::Lf2);
        r.push(Exam::Prf3);
        r.push(Exam::Prf4);
        r.push(Exam::Pk5);
        assert(r@ =~= all_exams());
        r
    }

    /// Whether this role is one of the two advanced-level exams.
    #[verifier::when_used_as_spec(spec_is_lk)]
    pub fn is_lk(&self) -> (r: bool)
        ensures
            r == self.spec_is_lk(),
    {
        match self {
            Exam::Lf1 | Exam::Lf2 => true,
            _ => false,
        }
    }

    /// The roles among `items` that a course may hold: every role that is not
    /// an advanced-level exam, and the advanced-level exams as well when the
    /// course is eligible for them. The order of `items` is kept.
    pub fn filtered(items: &[Exam], lk_eligible: bool) -> (r: Vec<Exam>)
        ensures
            r@ == items@.filter(|e: Exam| e.open_to(lk_eligible)),
    {
        let mut r: Vec<Exam> = Vec::new();
        let mut i: usize = 0;
        while i < items.len()
            invariant
                i <= items.len(),
                r@ == items@.take(i as int).filter(|e: Exam| e.open_to(lk_eligible)),
            decreases items.len() - i,
        {
            let e = items[i];
            proof {
                let keep = |e: Exam| e.open_to(lk_eligible);
                let head = items@.take(i as int);
                assert(items@.take(i + 1) =~= head.push(e));
                head.lemma_filter_push(e, keep);
            }
            if !e.is_lk() || lk_eligible {
                r.push(e);
            }
            i += 1;
        }
        assert(items@.take(i as int) =~= items@);
        r
    }

    /// The text shown for this role.
    pub fn label(&self) -> (r: &'static str)
        ensures
            r@ == self.spec_label(),
    {
        match self {
            Exam::Lf1 => "1. LF",
            Exam::Lf2 => "2. LF",
            Exam::Prf3 => "3. PrF",
            Exam::Prf4 => "4. PrF",
            Exam::Pk5 => "5. PK",
        }
    }
}

} // verus!
