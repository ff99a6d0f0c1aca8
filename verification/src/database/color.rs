//! The colors of a board's palette.
use vstd::prelude::*;

use std::collections::HashMap;

verus! {

/// A color of a palette.
#[derive(Debug, Clone)]
pub struct Color {
    pub name: String,
    pub value: u32,
    pub system_only: bool,
}

/// A color row as stored.
#[derive(Debug, Clone)]
pub struct ColorModel {
    pub board: i32,
    pub index: i32,
    pub name: String,
    pub value: i32,
    pub system_only: bool,
}

impl Color {
    /// The color of a stored row; the value is
    /// reinterpreted as unsigned, as `as` does.
    pub fn from_model(model: ColorModel) -> (r: Self)
        ensures
            r.name@ == model.name@,
            r.value == model.value as u32,
            r.system_only == model.system_only,
    {
        Color { name: model.name, value: model.value as u32, system_only: model.system_only }
    }
}

/// The palette the rows of a board's colors make, as their view: each index
/// (reinterpreted as unsigned) to the name, value and flag of the last row with
/// that index.
pub open spec fn palette_of(rows: Seq<ColorModel>) -> Map<u32, (Seq<char>, u32, bool)>
    decreases rows.len(),
{
    if rows.len() == 0 {
        Map::empty()
    } else {
        let last = rows.last();
        palette_of(rows.drop_last()).insert(
            last.index as u32,
            (last.name@, last.value as u32, last.system_only),
        )
    }
}

/// The name, value and flag of each color of a palette, by index.
pub open spec fn palette_view(p: Map<u32, Color>) -> Map<u32, (Seq<char>, u32, bool)> {
    Map::new(|k: u32| p.contains_key(k), |k: u32| (p[k].name@, p[k].value, p[k].system_only))
}

/// A board's palette, from its color rows.
pub fn palette_from_rows(rows: Vec<ColorModel>) -> (r: HashMap<u32, Color>)
    ensures
        palette_view(r@) == palette_of(rows@),
{
    broadcast use vstd::std_specs::hash::group_hash_axioms;

    let ghost all = rows@;
    let mut palette: HashMap<u32, Color> = HashMap::new();
    let mut i: usize = 0;
    assert(palette_view(palette@) =~= palette_of(all.take(0)));
    while i < rows.len()
        invariant
            i <= all.len(),
            rows@ == all,
            palette_view(palette@) == palette_of(all.take(i as int)),
        decreases all.len() - i,
    {
        let key = rows[i].index as u32;
        let color = Color {
            name: rows[i].name.clone(),
            value: rows[i].value as u32,
            system_only: rows[i].system_only,
        };
        palette.insert(key, color);
        proof {
            assert(all.take(i + 1).drop_last() =~= all.take(i as int));
            assert(all.take(i + 1).last() == all[i as int]);
            assert(palette_view(palette@) =~= palette_of(all.take(i + 1)));
        }
        i = i + 1;
    }
    assert(all.take(all.len() as int) =~= all);
    palette
}

} // verus!
