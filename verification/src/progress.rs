//! The key/value summary printed at the end of a command.
use vstd::prelude::*;
use crate::stac::owned;

verus! {

/// A simple key/value summary, kept in the order rows were added.
pub struct Summary {
    pub rows: Vec<(String, String)>,
}

/// The text of the rows of a summary.
pub open spec fn row_views(rows: Seq<(String, String)>) -> Seq<(Seq<char>, Seq<char>)> {
    rows.map_values(|r: (String, String)| (r.0@, r.1@))
}

/// The widest key of the rows, in bytes (0 without rows).
pub open spec fn widest_key(rows: Seq<(String, String)>) -> usize
    decreases rows.len(),
{
    if rows.len() == 0 {
        0
    } else {
        let rest = widest_key(rows.drop_last());
        let b = vstd::utf8::encode_utf8(rows.last().0@).len() as usize;
        if b > rest { b } else { rest }
    }
}

impl Summary {
    /// An empty summary.
    pub fn new() -> (r: Self)
        ensures
            r.rows@.len() == 0,
    {
        Summary { rows: Vec::new() }
    }

    /// Appends a row.
    pub fn add(self, key: &str, value: &str) -> (r: Self)
        ensures
            row_views(r.rows@) == row_views(self.rows@).push((key@, value@)),
    {
        let Summary { mut rows } = self;
        let ghost before = rows@;
        rows.push((owned(key), owned(value)));
        assert(row_views(rows@) =~= row_views(before).push((key@, value@)));
        Summary { rows }
    }

    /// The width in bytes of the widest key, to which keys are padded.
    pub fn key_width(&self) -> (r: usize)
        ensures
            r == widest_key(self.rows@),
    {
        let mut w: usize = 0;
        let mut i: usize = 0;
        assert(self.rows@.take(0) =~= Seq::<(String, String)>::empty());
        while i < self.rows.len()
            invariant
                i <= self.rows.len(),
                w == widest_key(self.rows@.take(i as int)),
            decreases self.rows.len() - i,
        {
            let ghost pre = self.rows@.take(i + 1);
            assert(pre.drop_last() =~= self.rows@.take(i as int));
            let key = self.rows[i].0.as_str();
            assert(key@ == self.rows@[i as int].0@);
            let b = key.len();
            if b > w {
                w = b;
            }
            i = i + 1;
        }
        assert(self.rows@.take(self.rows.len() as int) =~= self.rows@);
        w
    }
}

} // verus!
