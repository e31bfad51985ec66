use vstd::prelude::*;

verus! {

/// Per-table record counters, keyed by table name.
#[derive(Debug)]
pub struct NautilusIndexData {
    pub index: Vec<(String, u32)>,
}

/// The table is not registered in the index.
#[derive(Debug, Clone, Copy, PartialEq, Eq, Structural)]
pub struct InsertRecordError {}

impl InsertRecordError {
    pub fn message(&self) -> (r: &'static str)
        ensures
            r@ == "Failed to write new record."@,
    {
        "Failed to write new record."
    }
}

/// `i` is the first entry of table `name`.
pub open spec fn is_first_entry(entries: Seq<(String, u32)>, name: Seq<char>, i: int) -> bool {
    &&& 0 <= i < entries.len()
    &&& entries[i].0@ == name
    &&& forall|j: int| 0 <= j < i ==> entries[j].0@ != name
}

pub open spec fn has_table(entries: Seq<(String, u32)>, name: Seq<char>) -> bool {
    exists|i: int| 0 <= i < entries.len() && entries[i].0@ == name
}

impl NautilusIndexData {
    /// Each table name has at most one entry.
    pub open spec fn wf(&self) -> bool {
        forall|i: int, j: int|
            0 <= i < self.index@.len() && 0 <= j < self.index@.len() && i != j
                ==> self.index@[i].0@ != self.index@[j].0@
    }

    fn find(&self, table_name: &String) -> (r: Option<usize>)
        ensures
            r matches Some(i) ==> is_first_entry(self.index@, table_name@, i as int),
            r is None ==> !has_table(self.index@, table_name@),
    {
        let mut i: usize = 0;
        while i < self.index.len()
            invariant
                i <= self.index@.len(),
                forall|j: int| 0 <= j < i ==> self.index@[j].0@ != table_name@,
            decreases self.index@.len() - i,
        {
            if self.index[i].0 == *table_name {
                return Some(i);
            }
            i = i + 1;
        }
        None
    }

    /// The number of records of the table, if it is registered.
    pub fn get_count(&self, table_name: &String) -> (r: Option<&u32>)
        ensures
            r matches Some(c) ==> exists|i: int|
                is_first_entry(self.index@, table_name@, i) && *c == self.index@[i].1,
            r is None <==> !has_table(self.index@, table_name@),
    {
        match self.find(table_name) {
            Some(i) => Some(&self.index[i].1),
            None => None,
        }
    }

    /// The count the table's next record will have.
    pub fn get_next_count(&self, table_name: &String) -> (r: Option<u32>)
        requires
            self.wf(),
            forall|i: int|
                0 <= i < self.index@.len() && self.index@[i].0@ == table_name@
                    ==> self.index@[i].1 < u32::MAX,
        ensures
            r matches Some(c) ==> exists|i: int|
                is_first_entry(self.index@, table_name@, i) && c == self.index@[i].1 + 1,
            r is None <==> !has_table(self.index@, table_name@),
    {
        match self.find(table_name) {
            Some(i) => Some(self.index[i].1 + 1),
            None => None,
        }
    }

    /// Counts one more record of the table and returns the new count.
    pub fn add_record(&mut self, table_name: &String) -> (r: Result<u32, InsertRecordError>)
        requires
            old(self).wf(),
            forall|i: int|
                0 <= i < old(self).index@.len() && old(self).index@[i].0@ == table_name@
                    ==> old(self).index@[i].1 < u32::MAX,
        ensures
            r matches Ok(c) ==> exists|i: int|
                is_first_entry(old(self).index@, table_name@, i) && c == old(self).index@[i].1 + 1
                    && final(self).index@ == old(self).index@.update(
                    i,
                    (old(self).index@[i].0, c),
                ),
            r is Err <==> !has_table(old(self).index@, table_name@),
            r is Err ==> final(self).index@ == old(self).index@,
            final(self).wf(),
    {
        match self.find(table_name) {
            Some(i) => {
                let c = self.index[i].1 + 1;
                let key = self.index[i].0.clone();
                self.index.set(i, (key, c));
                Ok(c)
            },
            None => Err(InsertRecordError {}),
        }
    }
}

} // verus!
