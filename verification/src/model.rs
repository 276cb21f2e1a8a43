//! The grid itself: entries, classes and the data set that holds them.

use vstd::prelude::*;

verus! {

/// The value of an entry that has not been filled in.
pub const BLANK: u8 = 255;

/// A point in time: whole seconds since the Unix epoch, and the nanoseconds
/// that follow them.
#[derive(Clone, Copy, Debug, PartialEq, Eq, Structural)]
pub struct Timestamp {
    pub secs: i64,
    pub nanos: u32,
}

/// One cell of the grid: the row's timestamp and the byte stored for it.
#[derive(Clone, Copy, Debug, PartialEq, Eq, Structural)]
pub struct Entry {
    pub stamp: Timestamp,
    pub value: u8,
}

/// A named column of entries.
#[derive(Clone, Debug)]
pub struct Class {
    pub name: String,
    pub entries: Vec<Entry>,
}

/// What a class is to the contracts: its name as characters, its entries in
/// order.
pub struct ClassView {
    pub name: Seq<char>,
    pub entries: Seq<Entry>,
}

impl View for Class {
    type V = ClassView;

    open spec fn view(&self) -> ClassView {
        ClassView { name: self.name@, entries: self.entries@ }
    }
}

/// The whole grid: its classes, in order.
#[derive(Debug)]
pub struct Data {
    pub classes: Vec<Class>,
}

impl View for Data {
    type V = Seq<ClassView>;

    open spec fn view(&self) -> Seq<ClassView> {
        self.classes@.map_values(|c: Class| c@)
    }
}

/// The bytes of a column, without their timestamps.
pub open spec fn values_of(entries: Seq<Entry>) -> Seq<u8> {
    entries.map_values(|e: Entry| e.value)
}

/// The timestamps of a column, without their bytes.
pub open spec fn stamps_of(entries: Seq<Entry>) -> Seq<Timestamp> {
    entries.map_values(|e: Entry| e.stamp)
}

/// The same rows with every value unset.
pub open spec fn blanked(entries: Seq<Entry>) -> Seq<Entry> {
    entries.map_values(|e: Entry| Entry { stamp: e.stamp, value: BLANK })
}

/// The grid as bare bytes: one inner sequence per class.
pub open spec fn grid_of(classes: Seq<ClassView>) -> Seq<Seq<u8>> {
    classes.map_values(|c: ClassView| values_of(c.entries))
}

/// A class under the name `into` if it was called `from`, unchanged otherwise.
pub open spec fn renamed(c: ClassView, from: Seq<char>, into: Seq<char>) -> ClassView {
    if c.name == from {
        ClassView { name: into, entries: c.entries }
    } else {
        c
    }
}

/// The grid with `input` stored in row `y` of class `x`, the row's timestamp
/// kept.
pub open spec fn with_value(classes: Seq<ClassView>, x: int, y: int, input: u8) -> Seq<
    ClassView,
> {
    classes.update(
        x,
        ClassView {
            name: classes[x].name,
            entries: classes[x].entries.update(
                y,
                Entry { stamp: classes[x].entries[y].stamp, value: input },
            ),
        },
    )
}

/// The grid a tracker starts with: the single class `default`, holding one
/// unset row at `stamp`.
pub open spec fn initial(stamp: Timestamp) -> Seq<ClassView> {
    seq![ClassView { name: "default"@, entries: seq![Entry { stamp, value: BLANK }] }]
}

/// What a vector of byte vectors holds.
pub open spec fn rows_of(grid: &Vec<Vec<u8>>) -> Seq<Seq<u8>> {
    grid@.map_values(|row: Vec<u8>| row@)
}

/// Every class has the same timestamps in the same order as the first, so
/// that row `n` means the same moment in each.
pub open spec fn aligned(classes: Seq<ClassView>) -> bool {
    forall|i: int|
        0 <= i < classes.len() ==> stamps_of(#[trigger] classes[i].entries) == stamps_of(
            classes[0].entries,
        )
}

impl Data {
    /// The grid a tracker starts with, its one row at `stamp`.
    pub fn starting_at(stamp: Timestamp) -> (data: Data)
        ensures
            data@ == initial(stamp),
    {
        let mut entries: Vec<Entry> = Vec::new();
        entries.push(Entry { stamp, value: BLANK });
        let mut classes: Vec<Class> = Vec::new();
        classes.push(Class { name: "default".to_string(), entries });
        let data = Data { classes };
        assert(data@ =~= initial(stamp));
        data
    }

    /// The values of every class, in class order, stripped of timestamps.
    pub fn make_naive_grid(&self) -> (grid: Vec<Vec<u8>>)
        ensures
            rows_of(&grid) == grid_of(self@),
    {
        let mut grid: Vec<Vec<u8>> = Vec::new();
        let mut i: usize = 0;
        while i < self.classes.len()
            invariant
                i <= self.classes.len(),
                grid.len() == i,
                forall|k: int|
                    0 <= k < i ==> (#[trigger] grid@[k])@ == values_of(self@[k].entries),
            decreases self.classes.len() - i,
        {
            let column = &self.classes[i].entries;
            let mut values: Vec<u8> = Vec::new();
            let mut j: usize = 0;
            while j < column.len()
                invariant
                    j <= column.len(),
                    values.len() == j,
                    forall|k: int| 0 <= k < j ==> #[trigger] values@[k] == column@[k].value,
                decreases column.len() - j,
            {
                values.push(column[j].value);
                j += 1;
            }
            assert(values@ =~= values_of(self@[i as int].entries));
            grid.push(values);
            i += 1;
        }
        assert(rows_of(&grid) =~= grid_of(self@));
        grid
    }

    /// Appends a class called `class_name` with the rows of the first class,
    /// every value unset.
    pub fn new_blank_class(&mut self, class_name: String)
        requires
            old(self)@.len() > 0,
        ensures
            final(self)@ == old(self)@.push(
                (ClassView { name: class_name@, entries: blanked(old(self)@[0].entries) }),
            ),
    {
        let mut blank_entries: Vec<Entry> = Vec::new();
        let mut j: usize = 0;
        while j < self.classes[0].entries.len()
            invariant
                self.classes@.len() > 0,
                j <= self.classes@[0].entries@.len(),
                blank_entries.len() == j,
                forall|k: int|
                    0 <= k < j ==> #[trigger] blank_entries@[k] == (Entry {
                        stamp: self.classes@[0].entries@[k].stamp,
                        value: BLANK,
                    }),
            decreases self.classes@[0].entries@.len() - j,
        {
            let stamp = self.classes[0].entries[j].stamp;
            blank_entries.push(Entry { stamp, value: BLANK });
            j += 1;
        }
        assert(blank_entries@ =~= blanked(self@[0].entries));
        self.classes.push(Class { name: class_name, entries: blank_entries });
        assert(self@ =~= old(self)@.push(
            (ClassView { name: class_name@, entries: blanked(old(self)@[0].entries) }),
        ));
    }

    /// Gives every class called `from` the name `into`.
    pub fn rename(&mut self, from: &String, into: &String)
        ensures
            final(self)@ == old(self)@.map_values(|c: ClassView| renamed(c, from@, into@)),
    {
        let mut i: usize = 0;
        while i < self.classes.len()
            invariant
                i <= self.classes.len(),
                self.classes.len() == old(self).classes.len(),
                forall|k: int|
                    0 <= k < i ==> (#[trigger] self.classes@[k])@ == renamed(
                        old(self)@[k],
                        from@,
                        into@,
                    ),
                forall|k: int|
                    i <= k < self.classes.len() ==> #[trigger] self.classes@[k] == old(
                        self,
                    ).classes@[k],
            decreases self.classes.len() - i,
        {
            if self.classes[i].name == *from {
                self.classes[i].name = into.clone();
            }
            i += 1;
        }
        assert(self@ =~= old(self)@.map_values(|c: ClassView| renamed(c, from@, into@)));
    }

    /// Stores `input` in row `y` of class `x`; the row keeps its timestamp.
    pub fn set(&mut self, x: usize, y: usize, input: u8)
        requires
            x < old(self)@.len(),
            y < old(self)@[x as int].entries.len(),
        ensures
            final(self)@ == with_value(old(self)@, x as int, y as int, input),
    {
        self.classes[x].entries[y].value = input;
        assert(self@ =~= with_value(old(self)@, x as int, y as int, input));
    }
}

} // verus!
