//! Laws of the MGRS codec.
use vstd::arithmetic::div_mod::lemma_fundamental_div_mod_converse;
use vstd::prelude::*;

use crate::format::{digit_string, mgrs_text, mgrs_window, ups_band_of, ups_head, utm_head};
use crate::grid::{is_digit, lemma_alpha_letter_of_index, lemma_ups_alpha_letter_of_index, MAXUTM_S_ROW, TILE_NM, TILE_UM, UPS};
use crate::mgrs::{band_max_row, band_min_row, fold_negative, half_toward_zero, seam_block, utm_row_of, Mgrs};
use crate::text::chars_of;
use crate::parse::{ascii_bytes, upper_bytes, all_digits, band_index, block_tile, cell_centre, cell_nm, col_index, digits_value, lemma_pow10_add, lemma_pow10_positive, parse_spec, pow10, row_letter_index, zone_len, zone_number};

verus! {

/// Writing the value of a string of `n` digits with `n` digits gives the string back.
pub proof fn lemma_digit_string_of_value(s: Seq<u8>)
    requires
        all_digits(s),
    ensures
        digit_string(digits_value(s), s.len()) == s,
    decreases s.len(),
{
    if s.len() > 0 {
        let t = s.drop_last();
        assert(all_digits(t)) by {
            assert forall|i: int| 0 <= i < t.len() implies is_digit(#[trigger] t[i]) by {
                assert(t[i] == s[i]);
            }
        }
        lemma_digit_string_of_value(t);
        let v = digits_value(s);
        let c = s.last();
        assert(is_digit(s[s.len() - 1]));
        assert(v == 10 * digits_value(t) + (c - 48));
        lemma_fundamental_div_mod_converse(v, 10, digits_value(t), c - 48);
        assert(s =~= t.push(c));
    }
}

/// Where the centre of a cell lies: in tile `t`, at micrometre `ix` whose
/// tile is `t` and whose digits, at precision `p`, are `d`.
#[verifier::rlimit(50)]
pub proof fn lemma_cell_centre(t: int, d: int, p: nat)
    requires
        0 <= t,
        p <= 11,
        0 <= d < pow10(p),
    ensures
        t * TILE_NM <= cell_centre(t * pow10(p) + d, p) < (t + 1) * TILE_NM,
        (cell_centre(t * pow10(p) + d, p) / 1000) / (TILE_UM as int) == t,
        ((cell_centre(t * pow10(p) + d, p) / 1000) - TILE_UM * t) / pow10((11 - p) as nat) == d,
        cell_centre(t * pow10(p) + d, p) + MAXUTM_S_ROW * TILE_NM == cell_centre(
            (t + MAXUTM_S_ROW) * pow10(p) + d,
            p,
        ),
{
    let pp = pow10(p);
    let dd = pow10((11 - p) as nat);
    let c = cell_nm(p);
    let v = t * pp + d;
    let x = cell_centre(v, p);
    lemma_pow10_add(p, (11 - p) as nat);
    lemma_pow10_add(p, (14 - p) as nat);
    lemma_pow10_add((11 - p) as nat, 3);
    lemma_pow10_positive((11 - p) as nat);
    lemma_pow10_positive(p);
    reveal_with_fuel(pow10, 15);
    assert(pow10(11) == 100_000_000_000);
    assert(pow10(14) == 100_000_000_000_000);
    assert(pow10(3) == 1000);
    assert(c == dd * 1000);
    assert(pp * dd == TILE_UM);
    assert(pp * c == TILE_NM);
    // c / 2 is 500 dd; its thousandth part h lies in [0, dd).
    let h = if p == 11 {
        0
    } else {
        dd / 2
    };
    if p < 11 {
        assert(dd == 10 * pow10((10 - p) as nat));
        assert(c / 2 == 1000 * h);
    } else {
        assert(dd == 1);
        assert(c / 2 == 500);
    }
    assert(0 <= h < dd);
    assert(x == v * c + c / 2);
    // x / 1000
    let ix = v * dd + h;
    if p < 11 {
        assert(x == 1000 * ix) by (nonlinear_arith)
            requires
                x == v * c + c / 2,
                c == dd * 1000,
                c / 2 == 1000 * h,
                ix == v * dd + h,
        ;
        lemma_fundamental_div_mod_converse(x, 1000, ix, 0);
    } else {
        assert(x == 1000 * ix + 500) by (nonlinear_arith)
            requires
                x == v * c + c / 2,
                c == dd * 1000,
                c / 2 == 500,
                ix == v * dd + h,
                h == 0,
        ;
        lemma_fundamental_div_mod_converse(x, 1000, ix, 500);
    }
    assert(x / 1000 == ix);
    // ix / TILE_UM
    let rem = d * dd + h;
    assert(0 <= rem < pp * dd) by (nonlinear_arith)
        requires
            0 <= d < pp,
            0 <= h < dd,
            rem == d * dd + h,
    ;
    assert(ix == TILE_UM * t + rem) by (nonlinear_arith)
        requires
            ix == v * dd + h,
            v == t * pp + d,
            rem == d * dd + h,
            pp * dd == TILE_UM,
    ;
    lemma_fundamental_div_mod_converse(ix, TILE_UM as int, t, rem);
    assert(ix - TILE_UM * t == rem);
    lemma_fundamental_div_mod_converse(rem, dd, d, h);
    // the tile of x
    let xr = d * c + c / 2;
    assert(0 <= xr < pp * c) by (nonlinear_arith)
        requires
            0 <= d < pp,
            c >= 1000,
            xr == d * c + c / 2,
    ;
    assert(x == t * (pp * c) + xr) by (nonlinear_arith)
        requires
            x == v * c + c / 2,
            v == t * pp + d,
            xr == d * c + c / 2,
    ;
    assert(t * TILE_NM <= x < (t + 1) * TILE_NM) by (nonlinear_arith)
        requires
            x == t * (pp * c) + xr,
            0 <= xr < pp * c,
            pp * c == TILE_NM,
    ;
    assert(x + MAXUTM_S_ROW * TILE_NM == cell_centre((t + MAXUTM_S_ROW) * pp + d, p))
        by (nonlinear_arith)
        requires
            x == (t * pp + d) * c + c / 2,
            cell_centre((t + MAXUTM_S_ROW) * pp + d, p) == ((t + 100) * pp + d) * c + c / 2,
            pp * c == TILE_NM,
            MAXUTM_S_ROW == 100,
    ;
}

/// The row that `utm_row_of` resolves a row letter index to has that index
/// modulo 20.
pub proof fn lemma_utm_row_mod(band: int, col: int, row: int)
    requires
        -10 <= band <= 9,
        0 <= col < 8,
        0 <= row < 20,
        utm_row_of(band, col, row) != MAXUTM_S_ROW,
    ensures
        utm_row_of(band, col, row) % 20 == row,
        utm_row_of(band, col, row) == utm_row_of(band, col, utm_row_of(band, col, row) % 20),
{
    let lo = crate::mgrs::band_min_row(band);
    let hi = crate::mgrs::band_max_row(band);
    let base = crate::mgrs::half_toward_zero(lo + hi) - 10;
    let a = row - base + 100;
    let k = a % 20;
    let q = a / 20;
    vstd::arithmetic::div_mod::lemma_fundamental_div_mod(a, 20);
    let r = k + base;
    assert(utm_row_of(band, col, row) == r);
    assert(r == row + 20 * (5 - q));
    lemma_fundamental_div_mod_converse(r, 20, 5 - q, row);
}

/// The latitude band that a reference names: for UTM its band letter, from
/// -10 (C) to 9 (X); 0 for UPS.
pub open spec fn reference_band(u: Seq<u8>) -> int {
    if zone_number(u) != 0 {
        band_index(true, u[zone_len(u)]) - 10
    } else {
        0
    }
}

proof fn lemma_digit_halves(u: Seq<u8>, q: int, prec: int)
    requires
        0 <= q,
        0 <= prec,
        q + 2 * prec == u.len(),
        all_digits(u.subrange(q, u.len() as int)),
    ensures
        all_digits(u.subrange(q, q + prec)),
        all_digits(u.subrange(q + prec, q + 2 * prec)),
        u.subrange(q, u.len() as int).subrange(0, prec) == u.subrange(q, q + prec),
        u.subrange(q, u.len() as int).subrange(prec, 2 * prec) == u.subrange(q + prec, q + 2 * prec),
{
    let ds = u.subrange(q, u.len() as int);
    assert(ds.subrange(0, prec) =~= u.subrange(q, q + prec));
    assert(ds.subrange(prec, 2 * prec) =~= u.subrange(q + prec, q + 2 * prec));
    assert forall|i: int| 0 <= i < prec implies is_digit(#[trigger] u.subrange(q, q + prec)[i]) by {
        assert(u.subrange(q, q + prec)[i] == ds[i]);
    }
    assert forall|i: int| 0 <= i < prec implies is_digit(
        #[trigger] u.subrange(q + prec, q + 2 * prec)[i],
    ) by {
        assert(u.subrange(q + prec, q + 2 * prec)[i] == ds[prec + i]);
    }
}

/// What the parser makes of a UTM reference with column, row and digits.
#[verifier::rlimit(50)]
proof fn lemma_parse_utm_cell(u: Seq<u8>)
    requires
        parse_spec(u) is Some,
        zone_len(u) == 2,
        zone_number(u) != 0,
        u.len() >= 5,
    ensures
        ({
            let zone = zone_number(u);
            let band = band_index(true, u[2]);
            let col = col_index(true, zone, band, u[3]);
            let rowl = row_letter_index(true, band >= 10, u[4]);
            let prec = (u.len() - 5) / 2;
            let bt = block_tile(true, zone, band, band >= 10, col, rowl);
            let m = parse_spec(u)->Some_0;
            &&& 1 <= zone <= 60
            &&& 0 <= band < 20
            &&& 0 <= col < 8
            &&& 0 <= rowl < 20
            &&& bt is Some
            &&& 5 + 2 * prec == u.len()
            &&& prec <= 11
            &&& all_digits(u.subrange(5, u.len() as int))
            &&& m.utm.zone == zone
            &&& m.utm.northp == (band >= 10)
            &&& m.precision == prec
            &&& m.utm.easting == cell_centre(
                bt->Some_0.0 * pow10(prec as nat) + digits_value(u.subrange(5, 5 + prec)),
                prec as nat,
            )
            &&& m.utm.northing == cell_centre(
                bt->Some_0.1 * pow10(prec as nat) + digits_value(
                    u.subrange(5 + prec, 5 + 2 * prec),
                ),
                prec as nat,
            )
        }),
{
    let prec = (u.len() - 5) / 2;
    assert(is_digit(u[0]) && is_digit(u[1]));
    lemma_digit_halves(u, 5, prec);
    let zone = zone_number(u);
    let band = band_index(true, u[2]);
    let col = col_index(true, zone, band, u[3]);
    let rowl = row_letter_index(true, band >= 10, u[4]);
    let rl = if (zone - 1) % 2 == 1 {
        (rowl + 15) % 20
    } else {
        rowl
    };
    crate::parse::lemma_utm_row_range(band - 10, col, rl);
    let bt = block_tile(true, zone, band, band >= 10, col, rowl);
    let dxs = u.subrange(5, 5 + prec);
    let dys = u.subrange(5 + prec, 5 + 2 * prec);
    crate::parse::lemma_digits_value_bound(dxs);
    crate::parse::lemma_digits_value_bound(dys);
    lemma_cell_centre(bt->Some_0.0, digits_value(dxs), prec as nat);
    lemma_cell_centre(bt->Some_0.1, digits_value(dys), prec as nat);
}

/// The northing row of a UTM block after the MGRS window folds it, and
/// its agreement with the band.
proof fn lemma_utm_block_row(band: int, col: int, rl: int)
    requires
        -10 <= band <= 9,
        0 <= col < 8,
        0 <= rl < 20,
        utm_row_of(band, col, rl) != MAXUTM_S_ROW,
    ensures
        ({
            let r = utm_row_of(band, col, rl);
            let yh = if band >= 0 && r >= 10 {
                r
            } else {
                r + 100
            };
            &&& band >= 0 ==> 0 <= r <= 94
            &&& band < 0 ==> -90 <= r <= -1
            &&& yh % 20 == rl
            &&& utm_row_of(band, col, yh % 20) == yh - if band >= 0 && r >= 10 {
                0
            } else {
                100int
            }
        }),
{
    crate::parse::lemma_utm_row_range(band, col, rl);
    lemma_utm_row_mod(band, col, rl);
}

/// How the writer spells a UTM point at the centre of a cell of tile
/// `(col + 1, yt)` with digits `(dx, dy)`; `yh` is the northing tile after
/// the MGRS window folds the point.
#[verifier::rlimit(100)]
proof fn lemma_format_utm_cell(m: Mgrs, band: int, col: int, yt: int, yh: int, dx: int, dy: int)
    requires
        1 <= m.utm.zone <= 60,
        -10 <= band <= 9,
        0 <= col < 8,
        m.utm.northp == (band >= 0),
        band >= 0 ==> 0 <= yt <= 94,
        band < 0 ==> 10 <= yt <= 99,
        yh == if band >= 0 && yt < 10 {
            yt + 100
        } else {
            yt
        },
        utm_row_of(band, col, yh % 20) == yh - if band >= 0 && yt >= 10 {
            0
        } else {
            100int
        },
        0 <= m.precision <= 11,
        0 <= dx < pow10(m.precision as nat),
        0 <= dy < pow10(m.precision as nat),
        m.utm.easting == cell_centre((col + 1) * pow10(m.precision as nat) + dx, m.precision as nat),
        m.utm.northing == cell_centre(yt * pow10(m.precision as nat) + dy, m.precision as nat),
    ensures
        mgrs_text(m, band) == Some(
            utm_head(m.utm.zone as int, band, col, yh) + digit_string(dx, m.precision as nat)
                + digit_string(dy, m.precision as nat),
        ),
{
    let prec = m.precision as nat;
    let northp = band >= 0;
    let xt = col + 1;
    lemma_cell_centre(xt, dx, prec);
    lemma_cell_centre(yt, dy, prec);
    let x = m.utm.easting as int;
    let y = m.utm.northing as int;
    let fold = northp && yt < 10;
    let np = northp && !fold;
    if fold {
        lemma_cell_centre(yt + 100, dy, prec);
    }
    let y1 = if fold {
        y + MAXUTM_S_ROW * TILE_NM
    } else {
        y
    };
    assert(mgrs_window(true, northp, x, y) == Some((np, x, y1)));
    assert((x / 1000) / (TILE_UM as int) == xt);
    assert((y1 / 1000) / (TILE_UM as int) == yh);
}

/// The letters that the writer gives a UTM block are those of the reference.
proof fn lemma_utm_letters(u: Seq<u8>, yh: int)
    requires
        u.len() >= 5,
        zone_len(u) == 2,
        1 <= zone_number(u) <= 60,
        0 <= band_index(true, u[2]) < 20,
        0 <= col_index(true, zone_number(u), band_index(true, u[2]), u[3]) < 8,
        0 <= row_letter_index(true, band_index(true, u[2]) >= 10, u[4]) < 20,
        yh % 20 == (if (zone_number(u) - 1) % 2 == 1 {
            (row_letter_index(true, band_index(true, u[2]) >= 10, u[4]) + 15) % 20
        } else {
            row_letter_index(true, band_index(true, u[2]) >= 10, u[4])
        }),
    ensures
        utm_head(
            zone_number(u),
            band_index(true, u[2]) - 10,
            col_index(true, zone_number(u), band_index(true, u[2]), u[3]),
            yh,
        ) == u.subrange(0, 5),
{
    let zone = zone_number(u);
    let rowl = row_letter_index(true, band_index(true, u[2]) >= 10, u[4]);
    assert(is_digit(u[0]) && is_digit(u[1]));
    lemma_alpha_letter_of_index(u[2]);
    lemma_alpha_letter_of_index(u[3]);
    lemma_alpha_letter_of_index(u[4]);
    let shifted = (yh + if (zone - 1) % 2 == 1 {
        5int
    } else {
        0
    }) % 20;
    assert(shifted == rowl);
    assert(zone / 10 == u[0] - 48);
    assert(zone % 10 == u[1] - 48);
    assert(utm_head(zone, band_index(true, u[2]) - 10, col_index(true, zone, band_index(true, u[2]), u[3]), yh) =~= u.subrange(0, 5));
}

/// A UTM reference with column, row and digits comes back when written
/// in the band it names.
#[verifier::rlimit(50)]
proof fn lemma_reformat_utm_cell(u: Seq<u8>)
    requires
        parse_spec(u) is Some,
        zone_len(u) == 2,
        zone_number(u) != 0,
        u.len() >= 5,
    ensures
        mgrs_text(parse_spec(u)->Some_0, reference_band(u)) == Some(u),
{
    lemma_parse_utm_cell(u);
    let zone = zone_number(u);
    let band = band_index(true, u[2]);
    let col = col_index(true, zone, band, u[3]);
    let rowl = row_letter_index(true, band >= 10, u[4]);
    let prec = (u.len() - 5) / 2;
    let rl = if (zone - 1) % 2 == 1 {
        (rowl + 15) % 20
    } else {
        rowl
    };
    let r = utm_row_of(band - 10, col, rl);
    let m = parse_spec(u)->Some_0;
    let dxs = u.subrange(5, 5 + prec);
    let dys = u.subrange(5 + prec, 5 + 2 * prec);
    lemma_digit_halves(u, 5, prec);
    crate::parse::lemma_digits_value_bound(dxs);
    crate::parse::lemma_digits_value_bound(dys);
    lemma_utm_block_row(band - 10, col, rl);
    let yt = if band >= 10 {
        r
    } else {
        r + 100
    };
    let yh = if band - 10 >= 0 && r >= 10 {
        r
    } else {
        r + 100
    };
    lemma_format_utm_cell(m, band - 10, col, yt, yh, digits_value(dxs), digits_value(dys));
    lemma_utm_letters(u, yh);
    lemma_digit_string_of_value(dxs);
    lemma_digit_string_of_value(dys);
    assert(u =~= u.subrange(0, 5) + dxs + dys);
}

/// What the parser makes of a UPS reference with column, row and digits.
#[verifier::rlimit(50)]
proof fn lemma_parse_ups_cell(u: Seq<u8>)
    requires
        parse_spec(u) is Some,
        zone_len(u) == 0,
        zone_number(u) == 0,
        u.len() >= 3,
    ensures
        ({
            let band = band_index(false, u[0]);
            let northp = band >= 2;
            let col = col_index(false, 0, band, u[1]);
            let rowl = row_letter_index(false, northp, u[2]);
            let prec = (u.len() - 3) / 2;
            let bt = block_tile(false, 0, band, northp, col, rowl);
            let m = parse_spec(u)->Some_0;
            &&& 0 <= band < 4
            &&& 0 <= col < crate::grid::ups_col_len(band)
            &&& 0 <= rowl < crate::grid::ups_row_len(northp)
            &&& bt is Some
            &&& 3 + 2 * prec == u.len()
            &&& prec <= 11
            &&& all_digits(u.subrange(3, u.len() as int))
            &&& m.utm.zone == 0
            &&& m.utm.northp == northp
            &&& m.precision == prec
            &&& m.utm.easting == cell_centre(
                bt->Some_0.0 * pow10(prec as nat) + digits_value(u.subrange(3, 3 + prec)),
                prec as nat,
            )
            &&& m.utm.northing == cell_centre(
                bt->Some_0.1 * pow10(prec as nat) + digits_value(
                    u.subrange(3 + prec, 3 + 2 * prec),
                ),
                prec as nat,
            )
        }),
{
    let prec = (u.len() - 3) / 2;
    lemma_digit_halves(u, 3, prec);
    let band = band_index(false, u[0]);
    let northp = band >= 2;
    let col = col_index(false, 0, band, u[1]);
    let rowl = row_letter_index(false, northp, u[2]);
    let bt = block_tile(false, 0, band, northp, col, rowl);
    let dxs = u.subrange(3, 3 + prec);
    let dys = u.subrange(3 + prec, 3 + 2 * prec);
    crate::parse::lemma_digits_value_bound(dxs);
    crate::parse::lemma_digits_value_bound(dys);
    lemma_cell_centre(bt->Some_0.0, digits_value(dxs), prec as nat);
    lemma_cell_centre(bt->Some_0.1, digits_value(dys), prec as nat);
}

/// How the writer spells a UPS point at the centre of a cell.
#[verifier::rlimit(100)]
proof fn lemma_format_ups_cell(m: Mgrs, band: int, col: int, rowl: int, dx: int, dy: int)
    requires
        m.utm.zone == 0,
        0 <= band < 4,
        m.utm.northp == (band >= 2),
        0 <= col < crate::grid::ups_col_len(band),
        0 <= rowl < crate::grid::ups_row_len(band >= 2),
        0 <= m.precision <= 11,
        0 <= dx < pow10(m.precision as nat),
        0 <= dy < pow10(m.precision as nat),
        block_tile(false, 0, band, band >= 2, col, rowl) is Some,
        m.utm.easting == cell_centre(
            block_tile(false, 0, band, band >= 2, col, rowl)->Some_0.0 * pow10(
                m.precision as nat,
            ) + dx,
            m.precision as nat,
        ),
        m.utm.northing == cell_centre(
            block_tile(false, 0, band, band >= 2, col, rowl)->Some_0.1 * pow10(
                m.precision as nat,
            ) + dy,
            m.precision as nat,
        ),
    ensures
        mgrs_text(m, 0) == Some(
            seq![
                crate::grid::ups_band_letter(band),
                crate::grid::ups_col_letter(band, col),
                crate::grid::ups_row_letter(rowl),
            ] + digit_string(dx, m.precision as nat) + digit_string(dy, m.precision as nat),
        ),
{
    let prec = m.precision as nat;
    let northp = band >= 2;
    let (xt, yt) = block_tile(false, 0, band, northp, col, rowl)->Some_0;
    lemma_cell_centre(xt, dx, prec);
    lemma_cell_centre(yt, dy, prec);
    let x = m.utm.easting as int;
    let y = m.utm.northing as int;
    assert(mgrs_window(false, northp, x, y) == Some((northp, x, y)));
    assert((x / 1000) / (TILE_UM as int) == xt);
    assert((y / 1000) / (TILE_UM as int) == yt);
    assert(ups_band_of(northp, xt) == band);
    assert(ups_head(northp, xt, yt) =~= seq![
        crate::grid::ups_band_letter(band),
        crate::grid::ups_col_letter(band, col),
        crate::grid::ups_row_letter(rowl),
    ]);
}

/// A UPS reference with column, row and digits comes back when written.
#[verifier::rlimit(50)]
proof fn lemma_reformat_ups_cell(u: Seq<u8>)
    requires
        parse_spec(u) is Some,
        zone_len(u) == 0,
        zone_number(u) == 0,
        u.len() >= 3,
    ensures
        mgrs_text(parse_spec(u)->Some_0, reference_band(u)) == Some(u),
{
    lemma_parse_ups_cell(u);
    let band = band_index(false, u[0]);
    let northp = band >= 2;
    let col = col_index(false, 0, band, u[1]);
    let rowl = row_letter_index(false, northp, u[2]);
    let prec = (u.len() - 3) / 2;
    let m = parse_spec(u)->Some_0;
    let dxs = u.subrange(3, 3 + prec);
    let dys = u.subrange(3 + prec, 3 + 2 * prec);
    lemma_digit_halves(u, 3, prec);
    crate::parse::lemma_digits_value_bound(dxs);
    crate::parse::lemma_digits_value_bound(dys);
    lemma_format_ups_cell(m, band, col, rowl, digits_value(dxs), digits_value(dys));
    lemma_ups_alpha_letter_of_index(u[1]);
    lemma_alpha_letter_of_index(u[2]);
    assert(seq![
        crate::grid::ups_band_letter(band),
        crate::grid::ups_col_letter(band, col),
        crate::grid::ups_row_letter(rowl),
    ] =~= u.subrange(0, 3));
    lemma_digit_string_of_value(dxs);
    lemma_digit_string_of_value(dys);
    assert(u =~= u.subrange(0, 3) + dxs + dys);
}

/// Northing, in tiles from the equator, of the point of a UTM grid zone
/// designator with band letter index `b` (0 for C to 19 for X).
pub open spec fn centre_row(b: int) -> int {
    (80 * (2 * b - 19) + 9) / 18
}

/// The northing tile of that point once the MGRS window has folded it.
pub open spec fn centre_row_tile(b: int) -> int {
    if b >= 10 && centre_row(b) >= 10 {
        centre_row(b)
    } else {
        centre_row(b) + 100
    }
}

/// Each band's grid zone point lies in a 100 km block of the band.
proof fn lemma_band_centre_rows(b: int, col: int)
    requires
        0 <= b < 20,
        col == 3 || col == 4,
    ensures
        utm_row_of(b - 10, col, centre_row_tile(b) % 20) == centre_row(b),
        b >= 10 ==> 4 <= centre_row(b) <= 84,
        b < 10 ==> -84 <= centre_row(b) <= -4,
{
    if b < 5 {
        lemma_band_centre_rows_0(b, col);
    } else if b < 10 {
        lemma_band_centre_rows_5(b, col);
    } else if b < 15 {
        lemma_band_centre_rows_10(b, col);
    } else {
        lemma_band_centre_rows_15(b, col);
    }
}

#[verifier::rlimit(50)]
proof fn lemma_band_centre_rows_0(b: int, col: int)
    requires
        0 <= b < 5,
        col == 3 || col == 4,
    ensures
        utm_row_of(b - 10, col, centre_row_tile(b) % 20) == centre_row(b),
{
if b == 0 {
        assert(utm_row_of(-10, col, centre_row_tile(0) % 20) == centre_row(0));
    } else if b == 1 {
        assert(utm_row_of(-9, col, centre_row_tile(1) % 20) == centre_row(1));
    } else if b == 2 {
        assert(utm_row_of(-8, col, centre_row_tile(2) % 20) == centre_row(2));
    } else if b == 3 {
        assert(utm_row_of(-7, col, centre_row_tile(3) % 20) == centre_row(3));
    } else if b == 4 {
        assert(utm_row_of(-6, col, centre_row_tile(4) % 20) == centre_row(4));
    }
}

#[verifier::rlimit(50)]
proof fn lemma_band_centre_rows_5(b: int, col: int)
    requires
        5 <= b < 10,
        col == 3 || col == 4,
    ensures
        utm_row_of(b - 10, col, centre_row_tile(b) % 20) == centre_row(b),
{
if b == 5 {
        assert(utm_row_of(-5, col, centre_row_tile(5) % 20) == centre_row(5));
    } else if b == 6 {
        assert(utm_row_of(-4, col, centre_row_tile(6) % 20) == centre_row(6));
    } else if b == 7 {
        assert(utm_row_of(-3, col, centre_row_tile(7) % 20) == centre_row(7));
    } else if b == 8 {
        assert(utm_row_of(-2, col, centre_row_tile(8) % 20) == centre_row(8));
    } else if b == 9 {
        assert(utm_row_of(-1, col, centre_row_tile(9) % 20) == centre_row(9));
    }
}

#[verifier::rlimit(50)]
proof fn lemma_band_centre_rows_10(b: int, col: int)
    requires
        10 <= b < 15,
        col == 3 || col == 4,
    ensures
        utm_row_of(b - 10, col, centre_row_tile(b) % 20) == centre_row(b),
{
if b == 10 {
        assert(utm_row_of(0, col, centre_row_tile(10) % 20) == centre_row(10));
    } else if b == 11 {
        assert(utm_row_of(1, col, centre_row_tile(11) % 20) == centre_row(11));
    } else if b == 12 {
        assert(utm_row_of(2, col, centre_row_tile(12) % 20) == centre_row(12));
    } else if b == 13 {
        assert(utm_row_of(3, col, centre_row_tile(13) % 20) == centre_row(13));
    } else if b == 14 {
        assert(utm_row_of(4, col, centre_row_tile(14) % 20) == centre_row(14));
    }
}

#[verifier::rlimit(50)]
proof fn lemma_band_centre_rows_15(b: int, col: int)
    requires
        15 <= b < 20,
        col == 3 || col == 4,
    ensures
        utm_row_of(b - 10, col, centre_row_tile(b) % 20) == centre_row(b),
{
if b == 15 {
        assert(utm_row_of(5, col, centre_row_tile(15) % 20) == centre_row(15));
    } else if b == 16 {
        assert(utm_row_of(6, col, centre_row_tile(16) % 20) == centre_row(16));
    } else if b == 17 {
        assert(utm_row_of(7, col, centre_row_tile(17) % 20) == centre_row(17));
    } else if b == 18 {
        assert(utm_row_of(8, col, centre_row_tile(18) % 20) == centre_row(18));
    } else if b == 19 {
        assert(utm_row_of(9, col, centre_row_tile(19) % 20) == centre_row(19));
    }
}

/// A UTM grid zone designator comes back when written in the band it names.
#[verifier::rlimit(100)]
proof fn lemma_reformat_utm_zone(u: Seq<u8>)
    requires
        parse_spec(u) is Some,
        zone_len(u) == 2,
        zone_number(u) != 0,
        u.len() == 3,
    ensures
        mgrs_text(parse_spec(u)->Some_0, reference_band(u)) == Some(u),
{
    let zone = zone_number(u);
    let band = band_index(true, u[2]);
    let northp = band >= 10;
    let m = parse_spec(u)->Some_0;
    assert(is_digit(u[0]) && is_digit(u[1]));
    assert(1 <= zone <= 60);
    assert(0 <= band < 20);
    let c = if zone == 31 && band == 17 {
        4int
    } else {
        5
    };
    lemma_band_centre_rows(band, c - 1);
    let yb = centre_row(band);
    let x = c * TILE_NM;
    let y = yb * TILE_NM + if northp {
        0
    } else {
        MAXUTM_S_ROW * TILE_NM
    };
    assert(m.utm.easting == x);
    assert(m.utm.northing == y);
    assert(m.precision == -1);
    let yh = centre_row_tile(band);
    let np = northp && yb >= 10;
    let y1 = yh * TILE_NM;
    assert(mgrs_window(true, northp, x, y) == Some((np, x, y1)));
    lemma_fundamental_div_mod_converse(x, 1000, c * TILE_UM, 0);
    lemma_fundamental_div_mod_converse(c * TILE_UM, TILE_UM as int, c, 0);
    lemma_fundamental_div_mod_converse(y1, 1000, yh * TILE_UM, 0);
    lemma_fundamental_div_mod_converse(yh * TILE_UM, TILE_UM as int, yh, 0);
    assert((x / 1000) / (TILE_UM as int) == c);
    assert((y1 / 1000) / (TILE_UM as int) == yh);
    lemma_alpha_letter_of_index(u[2]);
    assert(zone / 10 == u[0] - 48);
    assert(zone % 10 == u[1] - 48);
    let head = utm_head(zone, band - 10, c - 1, yh);
    assert(head.subrange(0, 3) =~= u);
}

/// A UPS grid zone designator comes back when written.
proof fn lemma_reformat_ups_zone(u: Seq<u8>)
    requires
        parse_spec(u) is Some,
        zone_len(u) == 0,
        zone_number(u) == 0,
        u.len() == 1,
    ensures
        mgrs_text(parse_spec(u)->Some_0, reference_band(u)) == Some(u),
{
    let band = band_index(false, u[0]);
    let northp = band >= 2;
    let m = parse_spec(u)->Some_0;
    let c = if band % 2 == 1 {
        24int
    } else {
        16
    };
    let x = c * TILE_NM;
    let y = 20 * TILE_NM;
    assert(m.utm.easting == x && m.utm.northing == y);
    assert(mgrs_window(false, northp, x, y) == Some((northp, x, y)));
    lemma_fundamental_div_mod_converse(x, 1000, c * TILE_UM, 0);
    lemma_fundamental_div_mod_converse(c * TILE_UM, TILE_UM as int, c, 0);
    lemma_fundamental_div_mod_converse(y, 1000, 20 * TILE_UM, 0);
    lemma_fundamental_div_mod_converse(20 * TILE_UM, TILE_UM as int, 20, 0);
    assert(ups_band_of(northp, c) == band);
    let head = ups_head(northp, c, 20);
    assert(head.subrange(0, 1) =~= u);
}

/// Writing the point that an upper-case MGRS reference denotes, in the
/// latitude band that the reference names, gives the reference back: for
/// every reference that the parser accepts whose UTM zone, if any, is
/// written with two digits (the writer always writes two), and which writes
/// no zone digits for UPS.
pub proof fn lemma_reformat(u: Seq<u8>)
    requires
        parse_spec(u) is Some,
        zone_len(u) == 0 || (zone_len(u) == 2 && zone_number(u) != 0),
    ensures
        mgrs_text(parse_spec(u)->Some_0, reference_band(u)) == Some(u),
{
    if zone_len(u) == 2 {
        if u.len() == 3 {
            lemma_reformat_utm_zone(u);
        } else {
            lemma_reformat_utm_cell(u);
        }
    } else {
        if u.len() == 1 {
            lemma_reformat_ups_zone(u);
        } else {
            lemma_reformat_ups_cell(u);
        }
    }
}

/// The law of `lemma_reformat` for text: an ASCII reference without lower
/// case letters that `Mgrs::parse_str` accepts, with a two-digit UTM zone or
/// no zone digits, is what `Mgrs::format_in_band` writes for the point read, in the
/// band the reference names.
pub proof fn lemma_reformat_text(s: Seq<char>)
    requires
        vstd::utf8::is_ascii_chars(s),
        forall|i: int| 0 <= i < s.len() ==> !('a' <= #[trigger] s[i] <= 'z'),
        parse_spec(upper_bytes(ascii_bytes(s))) is Some,
        zone_len(upper_bytes(ascii_bytes(s))) == 0 || (zone_len(upper_bytes(ascii_bytes(s))) == 2
            && zone_number(upper_bytes(ascii_bytes(s))) != 0),
    ensures
        mgrs_text(
            parse_spec(upper_bytes(ascii_bytes(s)))->Some_0,
            reference_band(upper_bytes(ascii_bytes(s))),
        ) is Some,
        chars_of(
            mgrs_text(
                parse_spec(upper_bytes(ascii_bytes(s)))->Some_0,
                reference_band(upper_bytes(ascii_bytes(s))),
            )->Some_0,
        ) == s,
{
    let b = ascii_bytes(s);
    assert(upper_bytes(b) =~= b) by {
        assert forall|i: int| 0 <= i < b.len() implies #[trigger] upper_bytes(b)[i] == b[i] by {
            assert('\0' <= s[i] <= '\u{7f}' && !('a' <= s[i] <= 'z'));
            assert(b[i] == s[i] as u8);
        }
    }
    lemma_reformat(b);
    assert(chars_of(b) =~= s) by {
        assert forall|i: int| 0 <= i < s.len() implies #[trigger] chars_of(b)[i] == s[i] by {
            assert('\0' <= s[i] <= '\u{7f}');
            assert(b[i] == s[i] as u8);
        }
    }
}

/// A reference whose UTM zone is written with one digit is written back
/// with a leading zero, and is otherwise unchanged.
#[verifier::rlimit(100)]
pub proof fn lemma_reformat_one_digit_zone(u: Seq<u8>)
    requires
        parse_spec(u) is Some,
        zone_len(u) == 1,
        zone_number(u) != 0,
    ensures
        mgrs_text(parse_spec(u)->Some_0, reference_band(u)) == Some(seq![48u8] + u),
{
    let w = seq![48u8] + u;
    assert(w[0] == 48u8);
    assert forall|i: int| 0 <= i < u.len() implies #[trigger] w[i + 1] == u[i] by {}
    assert(zone_len(w) == 2);
    assert(zone_number(w) == zone_number(u));
    assert(!crate::parse::starts_inv(w));
    assert(w[2] == u[1]);
    if u.len() >= 4 {
        assert(w[3] == u[2] && w[4] == u[3]);
        assert(w.subrange(5, w.len() as int) =~= u.subrange(4, u.len() as int));
    }
    assert(parse_spec(w) == parse_spec(u));
    assert(reference_band(w) == reference_band(u));
    lemma_reformat(w);
}

/// A UPS reference that writes its zone as 0 or 00 is written back without
/// those digits, and is otherwise unchanged.
#[verifier::rlimit(100)]
pub proof fn lemma_reformat_zero_zone(u: Seq<u8>)
    requires
        parse_spec(u) is Some,
        zone_len(u) > 0,
        zone_number(u) == 0,
    ensures
        mgrs_text(parse_spec(u)->Some_0, reference_band(u)) == Some(
            u.subrange(zone_len(u), u.len() as int),
        ),
{
    let p = zone_len(u);
    let w = u.subrange(p, u.len() as int);
    assert forall|i: int| 0 <= i < w.len() implies #[trigger] w[i] == u[p + i] by {}
    assert(!is_digit(w[0]));
    assert(zone_len(w) == 0);
    assert(zone_number(w) == 0);
    assert(!crate::parse::starts_inv(w));
    if w.len() >= 3 {
        assert(w[1] == u[p + 1] && w[2] == u[p + 2]);
        assert(w.subrange(3, w.len() as int) =~= u.subrange(p + 3, u.len() as int));
    }
    assert(parse_spec(w) == parse_spec(u));
    lemma_reformat(w);
}

/// The first row at or above the band's lowest sure row that has row
/// letter index `row` modulo 20.
pub open spec fn first_row_from(lo: int, row: int) -> int {
    lo + (row - lo) % 20
}

/// `utm_row_of` stated directly: a result other than 100 has the letter's
/// index modulo 20 and is a sure row of the band, or a seam block just
/// below or above them; the row of the band with that index, when there is
/// one, is the result; so is a seam block just outside the band's sure rows
/// with that index.
pub proof fn lemma_utm_row_of_direct(band: int, col: int, row: int)
    requires
        -10 <= band <= 9,
        0 <= col < 8,
        0 <= row < 20,
    ensures
        ({
            let lo = band_min_row(band);
            let hi = band_max_row(band);
            let fcol = if col < 4 {
                col
            } else {
                7 - col
            };
            let r = utm_row_of(band, col, row);
            &&& r != MAXUTM_S_ROW ==> r % 20 == row
            &&& r != MAXUTM_S_ROW ==> (lo <= r <= hi || ((r == lo - 1 || r == hi + 1) && seam_block(
                fold_negative(r),
                fold_negative(band),
                fcol,
            )))
            &&& first_row_from(lo, row) <= hi ==> r == first_row_from(lo, row)
            &&& (lo - 1) % 20 == row && seam_block(fold_negative(lo - 1), fold_negative(band), fcol)
                ==> r == lo - 1
            &&& (hi + 1) % 20 == row && seam_block(fold_negative(hi + 1), fold_negative(band), fcol)
                ==> r == hi + 1
        }),
{
    let lo = band_min_row(band);
    let hi = band_max_row(band);
    let base = half_toward_zero(lo + hi) - 10;
    let a = row - base + 100;
    vstd::arithmetic::div_mod::lemma_fundamental_div_mod(a, 20);
    let r0 = a % 20 + base;
    assert(base <= lo - 1 && hi + 1 < base + 20);
    if (lo - 1) % 20 == row {
        lemma_utm_row_mod_window(base, row, lo - 1);
    }
    if (hi + 1) % 20 == row {
        lemma_utm_row_mod_window(base, row, hi + 1);
    }
    let f = first_row_from(lo, row);
    vstd::arithmetic::div_mod::lemma_fundamental_div_mod(row - lo, 20);
    assert(f % 20 == row) by {
        lemma_fundamental_div_mod_converse(f, 20, -((row - lo) / 20), row);
    }
    if f <= hi {
        lemma_utm_row_mod_window(base, row, f);
    }
    assert(r0 == row + 20 * (5 - a / 20));
    lemma_fundamental_div_mod_converse(r0, 20, 5 - a / 20, row);
}

/// Within a window of 20 rows from `base`, the row with index `row` modulo
/// 20 is the one that `utm_row_of` computes.
proof fn lemma_utm_row_mod_window(base: int, row: int, k: int)
    requires
        0 <= row < 20,
        base <= k < base + 20,
        k % 20 == row,
    ensures
        k == (row - base + 100) % 20 + base,
{
    let a = row - base + 100;
    vstd::arithmetic::div_mod::lemma_fundamental_div_mod(a, 20);
    vstd::arithmetic::div_mod::lemma_fundamental_div_mod(k, 20);
    let m = a % 20 + base;
    assert(m % 20 == row) by {
        lemma_fundamental_div_mod_converse(m, 20, 5 - a / 20, row);
    }
    assert(k - m == 20 * (k / 20 - (5 - a / 20))) by {
        lemma_fundamental_div_mod_converse(m, 20, 5 - a / 20, row);
    }
}

} // verus!
