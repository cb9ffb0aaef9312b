use vstd::prelude::*;

verus! {

/// Number of rows in a keyboard grid.
pub const ROWS: usize = 3;

/// Number of columns in a keyboard grid.
pub const COLUMNS: usize = 10;

/// Number of non-thumb fingers.
pub const FINGERS: u8 = 8;

/// One key of a layout: its character, the finger that types it, and its
/// offset `(dx, dy)` from that finger's home key.
#[derive(Clone, Copy, Debug, PartialEq, Eq)]
pub struct Key {
    pub value: char,
    pub finger: u8,
    pub pos: (i8, i8),
}

impl Key {
    pub fn new(value: char, finger: u8, pos: (i8, i8)) -> (r: Key)
        ensures
            r.value == value,
            r.finger == finger,
            r.pos == pos,
    {
        Key { value, finger, pos }
    }
}

/// The finger assigned to column `x`: 0,1,2,3,3,4,4,5,6,7 from left to right.
pub open spec fn finger_of(x: int) -> int {
    if x < 4 {
        x
    } else if x < 6 {
        x - 1
    } else {
        x - 2
    }
}

/// Horizontal offset of column `x`: `9 - 2x`, collapsed to 0 outside [-1, 1].
pub open spec fn dx_of(x: int) -> int {
    let dx = 9 - 2 * x;
    if -1 <= dx <= 1 {
        dx
    } else {
        0
    }
}

/// Vertical offset of row `y`: top row +1, home row 0, bottom row -1.
pub open spec fn dy_of(y: int) -> int {
    1 - y
}

/// An offset is one of the eight compass directions or no movement.
pub open spec fn is_offset(pos: (i8, i8)) -> bool {
    -1 <= pos.0 <= 1 && -1 <= pos.1 <= 1
}

/// A key that some grid position can produce.
pub open spec fn valid_key(k: Key) -> bool {
    k.finger < FINGERS && is_offset(k.pos)
}

/// The key at row-major position `i` of the grid.
pub open spec fn key_at(grid: [[char; 10]; 3], i: int) -> Key {
    let y = i / 10;
    let x = i % 10;
    Key { value: grid@[y]@[x], finger: finger_of(x) as u8, pos: (dx_of(x) as i8, dy_of(y) as i8) }
}

/// All keys of the grid, in row-major order.
pub open spec fn grid_keys(grid: [[char; 10]; 3]) -> Seq<Key> {
    Seq::new(30, |i: int| key_at(grid, i))
}

/// The characters of the grid, in row-major order.
pub open spec fn grid_chars(grid: [[char; 10]; 3]) -> Seq<char> {
    Seq::new(30, |i: int| grid@[i / 10]@[i % 10])
}

/// The key for `c` among `keys`: the last one with that character, if any.
pub open spec fn find_key(keys: Seq<Key>, c: char) -> Option<Key>
    decreases keys.len(),
{
    if keys.len() == 0 {
        None
    } else if keys.last().value == c {
        Some(keys.last())
    } else {
        find_key(keys.drop_last(), c)
    }
}

/// A character is absent from `keys` exactly when no key is found for it; a
/// found key carries that character and is one of `keys`.
pub proof fn lemma_find_key(keys: Seq<Key>, c: char)
    ensures
        find_key(keys, c) is None <==> forall|i: int| 0 <= i < keys.len() ==> keys[i].value != c,
        find_key(keys, c) matches Some(k) ==> k.value == c && keys.contains(k),
    decreases keys.len(),
{
    if keys.len() > 0 {
        let rest = keys.drop_last();
        lemma_find_key(rest, c);
        if keys.last().value != c {
            assert forall|i: int| 0 <= i < keys.len() && keys[i].value == c implies rest[i].value
                == c by {}
            if let Some(k) = find_key(rest, c) {
                let j = choose|j: int| 0 <= j < rest.len() && rest[j] == k;
                assert(keys[j] == k);
            }
        } else {
            assert(keys[keys.len() - 1] == keys.last());
        }
    }
}

/// The character-to-key mapping of one keyboard grid.
pub struct Layout {
    keys: Vec<Key>,
}

impl View for Layout {
    type V = Seq<Key>;

    closed spec fn view(&self) -> Seq<Key> {
        self.keys@
    }
}

impl Layout {
    /// Every key of the layout has a finger id and an offset that a grid
    /// position can produce.
    pub open spec fn wf(&self) -> bool {
        forall|i: int| 0 <= i < self@.len() ==> valid_key(#[trigger] self@[i])
    }

    /// The key for `c`, if the layout has one.
    pub open spec fn key_of(&self, c: char) -> Option<Key> {
        find_key(self@, c)
    }

    /// Looks up the key that types `c`; `None` for a character outside the grid.
    pub fn get(&self, c: char) -> (r: Option<Key>)
        ensures
            r == self.key_of(c),
    {
        let mut i: usize = self.keys.len();
        assert(self@.take(i as int) =~= self@);
        while i > 0
            invariant
                i <= self.keys@.len(),
                find_key(self@, c) == find_key(self@.take(i as int), c),
            decreases i,
        {
            let k = self.keys[i - 1];
            assert(self@.take(i as int).drop_last() =~= self@.take(i - 1));
            if k.value == c {
                return Some(k);
            }
            i = i - 1;
        }
        None
    }
}

/// Derives layouts from character grids.
pub struct KeyboardBuilder {}

impl KeyboardBuilder {
    /// Builds the layout of `grid`. A character that occurs twice maps to its
    /// last occurrence in row-major order.
    pub fn build(grid: [[char; 10]; 3]) -> (r: Layout)
        ensures
            r@ == grid_keys(grid),
            r.wf(),
    {
        let mut keys: Vec<Key> = Vec::new();
        let mut i: usize = 0;
        while i < ROWS * COLUMNS
            invariant
                i <= 30,
                keys@.len() == i,
                forall|j: int| 0 <= j < i ==> keys@[j] == key_at(grid, j),
            decreases 30 - i,
        {
            let y = i / COLUMNS;
            let x = i % COLUMNS;
            let key = Key::new(
                grid[y][x],
                KeyboardBuilder::get_finger(x as u8),
                KeyboardBuilder::get_pos(x as u8, y as u8),
            );
            keys.push(key);
            i = i + 1;
        }
        let r = Layout { keys };
        assert(r@ =~= grid_keys(grid));
        r
    }

    /// The finger that types column `x`.
    pub fn get_finger(x: u8) -> (r: u8)
        requires
            x < 10,
        ensures
            r == finger_of(x as int),
            r < FINGERS,
    {
        if x < 4 {
            x
        } else if x < 6 {
            x - 1
        } else {
            x - 2
        }
    }

    /// The offset of column `x`, row `y` from the home key of its finger.
    pub fn get_pos(x: u8, y: u8) -> (r: (i8, i8))
        requires
            x < 10,
            y < 3,
        ensures
            r.0 == dx_of(x as int),
            r.1 == dy_of(y as int),
            is_offset(r),
    {
        let iy = y as i8;
        let pos_y: i8 = -(iy - 1);
        let ix = x as i8;
        let mut pos_x: i8 = -((ix * 2) - 9);
        if pos_x > 1 || pos_x < -1 {
            pos_x = 0;
        }
        (pos_x, pos_y)
    }
}

/// Building twice from one grid gives the same mapping for every character.
pub proof fn lemma_build_deterministic(grid: [[char; 10]; 3], a: Layout, b: Layout)
    requires
        a@ == grid_keys(grid),
        b@ == grid_keys(grid),
    ensures
        a@ == b@,
        forall|c: char| a.key_of(c) == b.key_of(c),
{
}

} // verus!
