use vstd::prelude::*;

use crate::layout::{
    find_key, finger_of, grid_chars, grid_keys, is_offset, key_at, lemma_find_key, valid_key, Key, Layout, FINGERS,
};

verus! {

/// Number of offset categories: the eight compass directions and no movement.
pub const CATEGORIES: usize = 9;

/// The offset categories in their canonical order: no movement, up, down,
/// right, left, top right, top left, bottom right, bottom left.
pub open spec fn offset_order() -> Seq<(i8, i8)> {
    seq![(0i8, 0i8), (0i8, 1i8), (0i8, -1i8), (1i8, 0i8), (-1i8, 0i8), (1i8, 1i8), (-1i8, 1i8), (1i8, -1i8), (-1i8, -1i8)]
}

/// Number of keys in `h` with offset `pos`.
pub open spec fn offset_count(h: Seq<Key>, pos: (i8, i8)) -> nat
    decreases h.len(),
{
    if h.len() == 0 {
        0
    } else {
        offset_count(h.drop_last(), pos) + if h.last().pos == pos {
            1nat
        } else {
            0nat
        }
    }
}

/// Number of keys in `h` typed by finger `f`.
pub open spec fn finger_count(h: Seq<Key>, f: int) -> nat
    decreases h.len(),
{
    if h.len() == 0 {
        0
    } else {
        finger_count(h.drop_last(), f) + if h.last().finger == f {
            1nat
        } else {
            0nat
        }
    }
}

/// Number of keys in `h` that move the finger off its home key.
pub open spec fn moved_count(h: Seq<Key>) -> nat
    decreases h.len(),
{
    if h.len() == 0 {
        0
    } else {
        moved_count(h.drop_last()) + if h.last().pos != (0i8, 0i8) {
            1nat
        } else {
            0nat
        }
    }
}

/// Whether the key at `i` is typed by the same finger as the key before it,
/// with a different character.
pub open spec fn is_repeat(h: Seq<Key>, i: int) -> bool {
    1 <= i < h.len() && h[i - 1].finger == h[i].finger && h[i - 1].value != h[i].value
}

/// Number of consecutive pairs in `h` typed by one finger on two different
/// characters.
pub open spec fn repeat_count(h: Seq<Key>) -> nat
    decreases h.len(),
{
    if h.len() == 0 {
        0
    } else {
        repeat_count(h.drop_last()) + if is_repeat(h, h.len() - 1) {
            1nat
        } else {
            0nat
        }
    }
}

/// No count exceeds the number of keys, and the keys that moved together
/// with those that did not are all of them.
pub proof fn lemma_counts_bounded(h: Seq<Key>, pos: (i8, i8), f: int)
    ensures
        offset_count(h, pos) <= h.len(),
        finger_count(h, f) <= h.len(),
        repeat_count(h) <= h.len(),
        moved_count(h) + offset_count(h, (0i8, 0i8)) == h.len(),
    decreases h.len(),
{
    if h.len() > 0 {
        lemma_counts_bounded(h.drop_last(), pos, f);
    }
}

/// A logger that never saw offset `pos` counts none of it, and one that never
/// saw finger `f` counts none of that.
pub proof fn lemma_unseen_counts_zero(h: Seq<Key>, pos: (i8, i8), f: int)
    ensures
        (forall|i: int| 0 <= i < h.len() ==> h[i].pos != pos) ==> offset_count(h, pos) == 0,
        (forall|i: int| 0 <= i < h.len() ==> h[i].finger != f) ==> finger_count(h, f) == 0,
    decreases h.len(),
{
    if h.len() > 0 {
        let rest = h.drop_last();
        assert forall|i: int| 0 <= i < rest.len() implies rest[i] == h[i] by {}
        assert(h[h.len() - 1] == h.last());
        lemma_unseen_counts_zero(rest, pos, f);
    }
}

proof fn lemma_push(h: Seq<Key>, k: Key)
    ensures
        forall|pos: (i8, i8)|
            #[trigger] offset_count(h.push(k), pos) == offset_count(h, pos) + if k.pos == pos {
                1nat
            } else {
                0nat
            },
        forall|f: int|
            #[trigger] finger_count(h.push(k), f) == finger_count(h, f) + if k.finger == f {
                1nat
            } else {
                0nat
            },
        repeat_count(h.push(k)) == repeat_count(h) + if h.len() > 0 && h.last().finger
            == k.finger && h.last().value != k.value {
            1nat
        } else {
            0nat
        },
{
    let hk = h.push(k);
    assert(hk.drop_last() =~= h);
    assert(hk.last() == k);
    if h.len() > 0 {
        assert(hk[h.len() - 1] == h.last());
    }
}

/// The keys that logging the characters of `s` against `keys` appends to a
/// history, in order: one for each character that `keys` maps.
pub open spec fn keys_logged(keys: Seq<Key>, s: Seq<char>) -> Seq<Key>
    decreases s.len(),
{
    if s.len() == 0 {
        Seq::empty()
    } else {
        keys_logged(keys, s.drop_last()) + match find_key(keys, s.last()) {
            Some(k) => seq![k],
            None => Seq::empty(),
        }
    }
}

/// Logging one more character appends what `log` appends for it: so a
/// logger that starts empty and logs the characters of `s` one by one has
/// history `keys_logged(layout, s)`.
pub proof fn lemma_keys_logged_push(keys: Seq<Key>, s: Seq<char>, c: char)
    ensures
        keys_logged(keys, s.push(c)) == match find_key(keys, c) {
            Some(k) => keys_logged(keys, s).push(k),
            None => keys_logged(keys, s),
        },
{
    assert(s.push(c).drop_last() =~= s);
    assert(keys_logged(keys, s) + Seq::<Key>::empty() =~= keys_logged(keys, s));
    if let Some(k) = find_key(keys, c) {
        assert(keys_logged(keys, s) + seq![k] =~= keys_logged(keys, s).push(k));
    }
}

/// Number of grid positions among the first `n` in row-major order that
/// finger `f` types.
pub open spec fn positions_of_finger(n: int, f: int) -> nat
    decreases n,
{
    if n <= 0 {
        0
    } else {
        positions_of_finger(n - 1, f) + if finger_of((n - 1) % 10) == f {
            1nat
        } else {
            0nat
        }
    }
}

proof fn lemma_find_unique(keys: Seq<Key>, i: int)
    requires
        0 <= i < keys.len(),
        forall|j: int| 0 <= j < keys.len() && j != i ==> keys[j].value != keys[i].value,
    ensures
        find_key(keys, keys[i].value) == Some(keys[i]),
    decreases keys.len(),
{
    if i != keys.len() - 1 {
        let rest = keys.drop_last();
        assert(keys[keys.len() - 1] == keys.last());
        assert forall|j: int| 0 <= j < rest.len() && j != i implies rest[j].value
            != rest[i].value by {
            assert(rest[j] == keys[j]);
        }
        lemma_find_unique(rest, i);
    }
}

proof fn lemma_logged_prefix(keys: Seq<Key>, n: int)
    requires
        0 <= n <= keys.len(),
        forall|i: int, j: int| 0 <= i < j < keys.len() ==> keys[i].value != keys[j].value,
    ensures
        keys_logged(keys, keys.take(n).map_values(|k: Key| k.value)) == keys.take(n),
    decreases n,
{
    if n > 0 {
        let s = keys.take(n).map_values(|k: Key| k.value);
        assert(s.drop_last() =~= keys.take(n - 1).map_values(|k: Key| k.value));
        lemma_logged_prefix(keys, n - 1);
        assert forall|j: int| 0 <= j < keys.len() && j != n - 1 implies #[trigger] keys[j].value
            != keys[n - 1].value by {
            if j < n - 1 {
                assert(keys[j].value != keys[n - 1].value);
            } else {
                assert(keys[n - 1].value != keys[j].value);
            }
        }
        lemma_find_unique(keys, n - 1);
        assert(keys.take(n) =~= keys.take(n - 1) + seq![keys[n - 1]]);
    }
}

proof fn lemma_grid_prefix_fingers(grid: [[char; 10]; 3], n: int, f: int)
    requires
        0 <= n <= 30,
    ensures
        finger_count(grid_keys(grid).take(n), f) == positions_of_finger(n, f),
    decreases n,
{
    if n > 0 {
        let t = grid_keys(grid).take(n);
        assert(t.drop_last() =~= grid_keys(grid).take(n - 1));
        assert(t.last() == key_at(grid, n - 1));
        let x = (n - 1) % 10;
        assert(0 <= finger_of(x) < 8);
        lemma_grid_prefix_fingers(grid, n - 1, f);
    }
}

/// Logging each character of a grid without repeated characters once, row by
/// row, has each finger type three keys for every column it serves: the
/// counts for fingers 0 to 7 are 3, 3, 3, 6, 6, 3, 3, 3.
pub proof fn lemma_full_grid_finger_usage(grid: [[char; 10]; 3])
    requires
        forall|i: int, j: int|
            0 <= i < j < 30 ==> #[trigger] grid_chars(grid)[i] != #[trigger] grid_chars(grid)[j],
    ensures
        forall|f: int|
            0 <= f < FINGERS ==> #[trigger] finger_count(
                keys_logged(grid_keys(grid), grid_chars(grid)),
                f,
            ) == if f == 3 || f == 4 {
                6nat
            } else {
                3nat
            },
{
    let keys = grid_keys(grid);
    assert forall|i: int, j: int| 0 <= i < j < keys.len() implies keys[i].value
        != keys[j].value by {
        assert(grid_chars(grid)[i] != grid_chars(grid)[j]);
    }
    lemma_logged_prefix(keys, 30);
    assert(keys.take(30) =~= keys);
    assert(keys.map_values(|k: Key| k.value) =~= grid_chars(grid));
    assert forall|f: int| 0 <= f < FINGERS implies #[trigger] finger_count(
        keys_logged(keys, grid_chars(grid)),
        f,
    ) == if f == 3 || f == 4 {
        6nat
    } else {
        3nat
    } by {
        lemma_grid_prefix_fingers(grid, 30, f);
        reveal_with_fuel(positions_of_finger, 31);
    }
}

/// The category index of an offset, for the counters kept in canonical order.
fn category_index(pos: (i8, i8)) -> (r: usize)
    requires
        is_offset(pos),
    ensures
        r < CATEGORIES,
        offset_order()[r as int] == pos,
{
    let (dx, dy) = pos;
    if dy == 0 {
        if dx == 0 {
            0
        } else if dx == 1 {
            3
        } else {
            4
        }
    } else if dy == 1 {
        if dx == 0 {
            1
        } else if dx == 1 {
            5
        } else {
            6
        }
    } else {
        if dx == 0 {
            2
        } else if dx == 1 {
            7
        } else {
            8
        }
    }
}

/// Running keystroke statistics for one layout.
///
/// Its model is the layout and the sequence of keys logged so far; every
/// counter is a function of that sequence.
pub struct KeyLogger {
    keyboard: Layout,
    finger_movements: Vec<u64>,
    finger_usage: Vec<u64>,
    prev_finger: Option<u8>,
    prev_char: char,
    same_finger_usage: u64,
    strokes: u64,
    history: Ghost<Seq<Key>>,
}

impl KeyLogger {
    /// The layout that this logger tracks.
    pub closed spec fn layout(&self) -> Seq<Key> {
        self.keyboard@
    }

    /// The keys of the layout that were typed, in order.
    pub closed spec fn history(&self) -> Seq<Key> {
        self.history@
    }

    pub closed spec fn wf(&self) -> bool {
        let h = self.history@;
        &&& self.keyboard.wf()
        &&& self.finger_movements@.len() == CATEGORIES
        &&& self.finger_usage@.len() == FINGERS
        &&& forall|i: int|
            0 <= i < CATEGORIES ==> #[trigger] self.finger_movements@[i] == offset_count(
                h,
                offset_order()[i],
            )
        &&& forall|f: int| 0 <= f < FINGERS ==> #[trigger] self.finger_usage@[f] == finger_count(h, f)
        &&& self.strokes == h.len()
        &&& self.same_finger_usage == repeat_count(h)
        &&& h.len() == 0 ==> self.prev_finger is None
        &&& h.len() > 0 ==> self.prev_finger == Some(h.last().finger) && self.prev_char
            == h.last().value
        &&& forall|i: int| 0 <= i < h.len() ==> valid_key(#[trigger] h[i])
    }

    /// A logger for `keyboard` that has seen nothing yet.
    pub fn new(keyboard: Layout) -> (r: KeyLogger)
        requires
            keyboard.wf(),
        ensures
            r.wf(),
            r.layout() == keyboard@,
            r.history() == Seq::<Key>::empty(),
    {
        let mut finger_movements: Vec<u64> = Vec::new();
        let mut i: usize = 0;
        while i < CATEGORIES
            invariant
                i <= CATEGORIES,
                finger_movements@.len() == i,
                forall|j: int| 0 <= j < i ==> finger_movements@[j] == 0,
            decreases CATEGORIES - i,
        {
            finger_movements.push(0);
            i = i + 1;
        }
        let mut finger_usage: Vec<u64> = Vec::new();
        let mut f: usize = 0;
        while f < FINGERS as usize
            invariant
                f <= FINGERS,
                finger_usage@.len() == f,
                forall|j: int| 0 <= j < f ==> finger_usage@[j] == 0,
            decreases FINGERS - f,
        {
            finger_usage.push(0);
            f = f + 1;
        }
        KeyLogger {
            keyboard,
            finger_movements,
            finger_usage,
            prev_finger: None,
            prev_char: '\0',
            same_finger_usage: 0,
            strokes: 0,
            history: Ghost(Seq::empty()),
        }
    }

    /// Records one typed character. A character outside the layout changes
    /// nothing; a character of the layout appends its key to the history.
    pub fn log(&mut self, c: &char)
        requires
            old(self).wf(),
            old(self).history().len() < u64::MAX,
        ensures
            final(self).wf(),
            final(self).layout() == old(self).layout(),
            final(self).history() == match find_key(old(self).layout(), *c) {
                Some(k) => old(self).history().push(k),
                None => old(self).history(),
            },
            (forall|i: int|
                0 <= i < old(self).layout().len() ==> #[trigger] old(self).layout()[i].value != *c)
                ==> *final(self) == *old(self),
    {
        proof {
            lemma_find_key(self.keyboard@, *c);
        }
        if let Some(key) = self.keyboard.get(*c) {
            let ghost h = self.history@;
            proof {
                let j = choose|j: int| 0 <= j < self.keyboard@.len() && self.keyboard@[j] == key;
                assert(valid_key(self.keyboard@[j]));
                lemma_counts_bounded(h, key.pos, key.finger as int);
                lemma_push(h, key);
            }
            let idx = category_index(key.pos);
            let m = self.finger_movements[idx];
            self.finger_movements.set(idx, m + 1);
            let f = key.finger as usize;
            let u = self.finger_usage[f];
            self.finger_usage.set(f, u + 1);
            let repeat = match self.prev_finger {
                Some(p) => p == key.finger && self.prev_char != key.value,
                None => false,
            };
            if repeat {
                self.same_finger_usage = self.same_finger_usage + 1;
            }
            self.prev_finger = Some(key.finger);
            self.prev_char = key.value;
            self.strokes = self.strokes + 1;
            self.history = Ghost(h.push(key));
            proof {
                let hk = h.push(key);
                assert forall|i: int| 0 <= i < CATEGORIES implies #[trigger] self.finger_movements@[i]
                    == offset_count(hk, offset_order()[i]) by {
                    if i != idx {
                        assert(offset_order()[i] != key.pos);
                    }
                }
                assert forall|i: int| 0 <= i < hk.len() implies valid_key(#[trigger] hk[i]) by {
                    if i < h.len() {
                        assert(hk[i] == h[i]);
                    }
                }
            }
        }
    }

    /// How many logged keys had offset `pos`; `None` when there were none.
    pub fn finger_movement(&self, pos: (i8, i8)) -> (r: Option<u64>)
        requires
            self.wf(),
        ensures
            r == if offset_count(self.history(), pos) > 0 {
                Some(offset_count(self.history(), pos) as u64)
            } else {
                None::<u64>
            },
            offset_count(self.history(), pos) <= u64::MAX,
    {
        proof {
            lemma_counts_bounded(self.history@, pos, 0);
            lemma_unseen_counts_zero(self.history@, pos, 0);
        }
        if !(-1 <= pos.0 && pos.0 <= 1 && -1 <= pos.1 && pos.1 <= 1) {
            return None;
        }
        let n = self.finger_movements[category_index(pos)];
        if n > 0 {
            Some(n)
        } else {
            None
        }
    }

    /// How many logged keys were typed by finger `finger`; `None` when there
    /// were none.
    pub fn finger_usage(&self, finger: u8) -> (r: Option<u64>)
        requires
            self.wf(),
        ensures
            r == if finger_count(self.history(), finger as int) > 0 {
                Some(finger_count(self.history(), finger as int) as u64)
            } else {
                None::<u64>
            },
            finger_count(self.history(), finger as int) <= u64::MAX,
    {
        proof {
            lemma_counts_bounded(self.history@, (0, 0), finger as int);
            lemma_unseen_counts_zero(self.history@, (0, 0), finger as int);
        }
        if finger >= FINGERS {
            return None;
        }
        let n = self.finger_usage[finger as usize];
        if n > 0 {
            Some(n)
        } else {
            None
        }
    }

    /// Number of times one finger typed two different characters in a row.
    pub fn same_finger_usage(&self) -> (r: u64)
        requires
            self.wf(),
        ensures
            r == repeat_count(self.history()),
    {
        self.same_finger_usage
    }

    /// Number of logged keys that moved the finger off its home key.
    pub fn finger_movements_total(&self) -> (r: u64)
        requires
            self.wf(),
        ensures
            r == moved_count(self.history()),
    {
        proof {
            lemma_counts_bounded(self.history@, (0, 0), 0);
            assert(offset_order()[0] == (0i8, 0i8));
        }
        self.strokes - self.finger_movements[0]
    }

    /// Number of logged keys, that is of characters found in the layout.
    pub fn strokes(&self) -> (r: u64)
        requires
            self.wf(),
        ensures
            r == self.history().len(),
    {
        self.strokes
    }
}

} // verus!
