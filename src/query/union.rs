use vstd::prelude::*;
use vstd::string::*;
use crate::query::select::{select_ok, select_sql, Select};
use crate::to_sql::{Dialect, SqlError};

verus! {

/// SELECTs joined by `UNION` (or `UNION ALL`).
#[derive(Debug, PartialEq, Eq)]
pub struct Union {
    pub all: bool,
    pub queries: Vec<Select>,
}

pub open spec fn union_sql(v: Seq<Select>, all: bool, d: Dialect) -> Seq<char>
    decreases v.len(),
{
    if v.len() == 0 {
        Seq::empty()
    } else if v.len() == 1 {
        select_sql(v[0], d)
    } else {
        union_sql(v.drop_last(), all, d) + " UNION "@ + (if all {
            "ALL "@
        } else {
            Seq::empty()
        }) + select_sql(v.last(), d)
    }
}

impl Union {
    #[verifier::spinoff_prover]
    #[verifier::rlimit(100)]
    pub fn write_sql(&self, buf: &mut String, dialect: Dialect) -> (r: Result<(), SqlError>)
        ensures
            r is Ok <==> forall|i: int| 0 <= i < self.queries@.len() ==> select_ok(#[trigger] self.queries@[i], dialect),
            r is Ok ==> final(buf)@ == old(buf)@ + union_sql(self.queries@, self.all, dialect),
    {
        proof { reveal_strlit(" UNION "); reveal_strlit("ALL "); }
        let mut i: usize = 0;
        while i < self.queries.len()
            invariant
                i <= self.queries.len(),
                forall|j: int| 0 <= j < i ==> select_ok(#[trigger] self.queries@[j], dialect),
                buf@ == old(buf)@ + union_sql(self.queries@.take(i as int), self.all, dialect),
            decreases self.queries.len() - i,
        {
            proof { assert(self.queries@.take(i as int + 1).drop_last() =~= self.queries@.take(i as int)); }
            if i > 0 {
                buf.append(" UNION ");
                if self.all {
                    buf.append("ALL ");
                }
            }
            let res = self.queries[i].write_sql(buf, dialect);
            if res.is_err() {
                return res;
            }
            proof { assert(buf@ =~= old(buf)@ + union_sql(self.queries@.take(i as int + 1), self.all, dialect)); }
            i += 1;
        }
        proof { assert(self.queries@.take(i as int) =~= self.queries@); }
        Ok(())
    }
}

} // verus!
