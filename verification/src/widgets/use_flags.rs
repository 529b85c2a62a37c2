//! The USE flag panel: the flags laid out in columns, each coloured by its state.
use vstd::prelude::*;

use crate::gentoo::sets::FlagSet;
use crate::gentoo::useflags::UseFlag;

verus! {

/// How a flag is shown: on, on by default (but not on), or off.
#[derive(Debug, Clone, Copy, PartialEq, Eq, Structural)]
pub enum FlagStyle {
    Enabled,
    DefaultOn,
    Disabled,
}

/// One flag as the panel shows it: its name padded to the column width, its style,
/// and whether it is set in italics (flags on by default).
#[derive(Debug)]
pub struct FlagCell {
    pub text: String,
    pub style: FlagStyle,
    pub italic: bool,
}

impl View for FlagCell {
    type V = (Seq<char>, FlagStyle, bool);

    open spec fn view(&self) -> (Seq<char>, FlagStyle, bool) {
        (self.text@, self.style, self.italic)
    }
}

/// The views of a row of cells.
pub open spec fn cells_view(v: Seq<FlagCell>) -> Seq<(Seq<char>, FlagStyle, bool)> {
    v.map_values(|c: FlagCell| c@)
}

/// The length in bytes of the UTF-8 form of `s`: what `str::len` gives.
pub open spec fn byte_len(s: Seq<char>) -> nat {
    (vstd::utf8::encode_utf8(s).len() as usize) as nat
}

/// The greatest byte length among the names of `flags`, 0 for none.
pub open spec fn longest_name(flags: Seq<&UseFlag>) -> nat
    decreases flags.len(),
{
    if flags.len() == 0 {
        0
    } else {
        let m = longest_name(flags.drop_last());
        let l = byte_len(flags.last().name@);
        if l > m {
            l
        } else {
            m
        }
    }
}

/// The width the names are padded to, less two: the longest name's byte length, or 1
/// for no flags.
pub open spec fn name_width(flags: Seq<&UseFlag>) -> nat {
    if flags.len() == 0 {
        1
    } else {
        longest_name(flags)
    }
}

/// `n` spaces.
pub open spec fn spaces(n: nat) -> Seq<char> {
    Seq::new(n, |i: int| ' ')
}

/// `s` padded with spaces at the end to `width` characters, as `{:<width$}` does.
pub open spec fn pad_right(s: Seq<char>, width: nat) -> Seq<char> {
    if s.len() >= width {
        s
    } else {
        s + spaces((width - s.len()) as nat)
    }
}

/// How the panel shows `flag`.
pub open spec fn flag_cell(flag: UseFlag, enabled: Set<Seq<char>>, width: nat) -> (Seq<char>, FlagStyle, bool) {
    (
        pad_right(flag.name@, width),
        if enabled.contains(flag.name@) {
            FlagStyle::Enabled
        } else if flag.default {
            FlagStyle::DefaultOn
        } else {
            FlagStyle::Disabled
        },
        flag.default,
    )
}

/// The cells of all flags, in order.
pub open spec fn all_cells(flags: Seq<&UseFlag>, enabled: Set<Seq<char>>) -> Seq<(Seq<char>, FlagStyle, bool)> {
    flags.map_values(|f: &UseFlag| flag_cell(*f, enabled, name_width(flags) + 2))
}

/// How many columns fit: the area's width over the column width (the name width,
/// kept to its low 16 bits, as a cast to `u16` keeps it, plus three), at least one.
pub open spec fn column_count(flags: Seq<&UseFlag>, area_width: u16) -> nat {
    let col_width: int = (name_width(flags) % 65536) as int + 3;
    let c: int = (area_width as int) / col_width;
    if c >= 1 {
        c as nat
    } else {
        1
    }
}

/// The cells of row `row` of a grid of `columns` columns.
pub open spec fn grid_row(cells: Seq<(Seq<char>, FlagStyle, bool)>, columns: nat, row: nat) -> Seq<(Seq<char>, FlagStyle, bool)> {
    let start = row * columns;
    let end = if (row + 1) * columns < cells.len() {
        (row + 1) * columns
    } else {
        cells.len() as nat
    };
    cells.subrange(start as int, end as int)
}

/// The number of rows: the flags over the columns, rounded up.
pub open spec fn row_count(n: nat, columns: nat) -> nat {
    if n % columns == 0 {
        n / columns
    } else {
        n / columns + 1
    }
}

fn pad_to(s: &String, width: usize) -> (r: String)
    ensures
        r@ == pad_right(s@, width as nat),
{
    let n = s.as_str().unicode_len();
    let mut r = s.clone();
    if n >= width {
        return r;
    }
    let mut k: usize = 0;
    let space = " ";
    proof {
        reveal_strlit(" ");
    }
    assert(spaces(0) =~= seq![]);
    assert(r@ =~= s@ + spaces(0));
    while k < width - n
        invariant
            n == s@.len(),
            n < width,
            space@ == seq![' '],
            k <= width - n,
            r@ == s@ + spaces(k as nat),
        decreases width - n - k,
    {
        r.append(space);
        assert(spaces((k + 1) as nat) =~= spaces(k as nat) + seq![' ']);
        assert(r@ =~= s@ + spaces((k + 1) as nat));
        k = k + 1;
    }
    r
}

fn longest_name_of(flags: &Vec<&UseFlag>) -> (r: usize)
    ensures
        r == longest_name(flags@),
{
    let n = flags.len();
    let mut m: usize = 0;
    let mut i: usize = 0;
    assert(flags@.take(0) =~= seq![]);
    while i < n
        invariant
            n == flags@.len(),
            i <= n,
            m == longest_name(flags@.take(i as int)),
        decreases n - i,
    {
        let l = flags[i].name.as_str().len();
        assert(flags@.take(i + 1).drop_last() =~= flags@.take(i as int));
        assert(flags@.take(i + 1).last() == flags@[i as int]);
        if l > m {
            m = l;
        }
        i = i + 1;
    }
    assert(flags@.take(n as int) =~= flags@);
    m
}

/// Lays the flags out in rows for an area `area_width` cells wide: each name padded to
/// the longest name's length plus two, as many columns as fit (at least one), rows
/// filled from the left. A flag that `enabled_use_flags` holds is shown as on, else one
/// on by default as such, else as off; flags on by default are set in italics.
pub fn use_flag_rows(use_flags: &Vec<&UseFlag>, enabled_use_flags: &FlagSet, area_width: u16) -> (r: Vec<Vec<FlagCell>>)
    requires
        (name_width(use_flags@) % 65536) + 3 <= u16::MAX,
        name_width(use_flags@) + 2 <= usize::MAX,
        use_flags@.len() + 65536 <= usize::MAX,
    ensures
        ({
            let columns = column_count(use_flags@, area_width);
            let cells = all_cells(use_flags@, enabled_use_flags@);
            &&& r@.len() == row_count(use_flags@.len(), columns)
            &&& forall|row: int| 0 <= row < r@.len() ==> cells_view(#[trigger] r@[row]@) == grid_row(cells, columns, row as nat)
        }),
{
    let n = use_flags.len();
    let max_len: usize = if n == 0 {
        1
    } else {
        longest_name_of(use_flags)
    };
    let col_width: u16 = (max_len % 65536) as u16 + 3;
    let fit = area_width / col_width;
    let columns: usize = if fit >= 1 {
        fit as usize
    } else {
        1
    };
    let rows: usize = if n % columns == 0 {
        n / columns
    } else {
        n / columns + 1
    };
    let ghost cells = all_cells(use_flags@, enabled_use_flags@);
    assert(max_len == name_width(use_flags@));
    assert(columns == column_count(use_flags@, area_width));
    proof {
        assert(rows * columns < n + columns) by (nonlinear_arith)
            requires
                columns >= 1,
                rows == (if n % columns == 0 { (n / columns) as int } else { n / columns + 1 }),
        ;
        assert(columns <= 65535);
    }
    let mut lines: Vec<Vec<FlagCell>> = Vec::new();
    let mut row: usize = 0;
    while row < rows
        invariant
            n == use_flags@.len(),
            n + 65536 <= usize::MAX,
            1 <= columns <= 65535,
            rows * columns < n + columns,
            max_len == name_width(use_flags@),
            max_len + 2 <= usize::MAX,
            cells == all_cells(use_flags@, enabled_use_flags@),
            columns == column_count(use_flags@, area_width),
            row <= rows,
            lines@.len() == row,
            forall|k: int| 0 <= k < row ==> cells_view(#[trigger] lines@[k]@) == grid_row(cells, columns as nat, k as nat),
        decreases rows - row,
    {
        let mut spans: Vec<FlagCell> = Vec::new();
        let mut col: usize = 0;
        assert(row * columns + columns <= rows * columns) by (nonlinear_arith)
            requires row < rows, columns >= 1;
        let base: usize = row * columns;
        let ghost start = base as int;
        let ghost limit = if (row + 1) * columns < cells.len() { ((row + 1) * columns) as int } else { cells.len() as int };
        assert((row + 1) * columns == base + columns) by (nonlinear_arith)
            requires base == row * columns;
        while col < columns
            invariant
                n == use_flags@.len(),
                cells == all_cells(use_flags@, enabled_use_flags@),
                cells.len() == n,
                max_len == name_width(use_flags@),
                max_len + 2 <= usize::MAX,
                base == start,
                base + columns < n + columns + columns,
                base + columns <= usize::MAX,
                limit == (if base + columns < n { (base + columns) as int } else { n as int }),
                col <= columns,
                cells_view(spans@) == cells.subrange(start, if base + col < n { (base + col) as int } else { if start < n { n as int } else { start } }),
            decreases columns - col,
        {
            let idx = base + col;
            if idx < n {
                let flag = use_flags[idx];
                let style = if enabled_use_flags.contains(flag.name.as_str()) {
                    FlagStyle::Enabled
                } else if flag.default {
                    FlagStyle::DefaultOn
                } else {
                    FlagStyle::Disabled
                };
                let cell = FlagCell { text: pad_to(&flag.name, max_len + 2), style, italic: flag.default };
                let ghost before = spans@;
                spans.push(cell);
                assert(cells[idx as int] == cell@);
                assert(cells_view(spans@) =~= cells_view(before).push(cell@));
                assert(cells.subrange(start, idx + 1) =~= cells.subrange(start, idx as int).push(cells[idx as int]));
            }
            col = col + 1;
        }
        proof {
            assert(start <= n) by (nonlinear_arith)
                requires
                    start == row * columns,
                    row < rows,
                    rows * columns < n + columns,
                    columns >= 1,
            ;
            assert(cells_view(spans@) =~= grid_row(cells, columns as nat, row as nat));
        }
        lines.push(spans);
        row = row + 1;
    }
    lines
}

} // verus!

verus! {

/// Every cell of the panel shows its flag: a flag whose name the enabled set holds is
/// shown as on, whatever its default; a flag it does not hold is shown as on by default
/// when the package turns it on by default, and as off otherwise; a flag is set in
/// italics exactly when it is on by default; and the cell's text begins with the flag's
/// name, followed by spaces only.
pub proof fn law_flag_cells_show_their_flags(flags: Seq<&UseFlag>, enabled: Set<Seq<char>>)
    ensures
        all_cells(flags, enabled).len() == flags.len(),
        forall|k: int| 0 <= k < flags.len() ==> {
            let c = #[trigger] all_cells(flags, enabled)[k];
            let f = flags[k];
            &&& (enabled.contains(f.name@) ==> c.1 == FlagStyle::Enabled)
            &&& (!enabled.contains(f.name@) && f.default ==> c.1 == FlagStyle::DefaultOn)
            &&& (!enabled.contains(f.name@) && !f.default ==> c.1 == FlagStyle::Disabled)
            &&& c.2 == f.default
            &&& c.0.len() >= f.name@.len()
            &&& c.0.subrange(0, f.name@.len() as int) == f.name@
            &&& forall|j: int| f.name@.len() <= j < c.0.len() ==> c.0[j] == ' '
        },
{
    assert forall|k: int| 0 <= k < flags.len() implies {
        let c = #[trigger] all_cells(flags, enabled)[k];
        let f = flags[k];
        &&& c.0.len() >= f.name@.len()
        &&& c.0.subrange(0, f.name@.len() as int) == f.name@
        &&& forall|j: int| f.name@.len() <= j < c.0.len() ==> c.0[j] == ' '
    } by {
        let f = flags[k];
        let w = name_width(flags) + 2;
        let t = pad_right(f.name@, w);
        assert(all_cells(flags, enabled)[k] == flag_cell(*f, enabled, w));
        if f.name@.len() >= w {
            assert(t.subrange(0, f.name@.len() as int) =~= f.name@);
        } else {
            assert(t.subrange(0, f.name@.len() as int) =~= f.name@);
            assert forall|j: int| f.name@.len() <= j < t.len() implies t[j] == ' ' by {
                assert(t[j] == spaces((w - f.name@.len()) as nat)[j - f.name@.len()]);
            }
        }
    }
}

} // verus!
