//! The panel layout a Nanoleaf device reports: panel shapes, and the records of
//! its `positionData` turned into panels.
use vstd::prelude::*;
use crate::panels::Panel;

verus! {

/// A kind of Nanoleaf panel, known by the id the device reports for it.
#[derive(Clone, Copy, Debug)]
pub struct ShapeType {
    pub id: u64,
    pub name: &'static str,
    /// Approximate side length for rendering, in hundredths of a layout unit.
    pub side_length_hundredths: u32,
}

/// The display name of a shape id.
pub open spec fn shape_name(id: u64) -> Seq<char> {
    if id == 0 {
        "Triangle"@
    } else if id == 1 {
        "Rhythm"@
    } else if id == 2 {
        "Square"@
    } else if id == 3 {
        "Control Square Master"@
    } else if id == 4 {
        "Control Square Passive"@
    } else if id == 7 {
        "Hexagon (Shapes)"@
    } else if id == 8 {
        "Triangle (Shapes)"@
    } else if id == 9 {
        "Mini Triangle (Shapes)"@
    } else if id == 12 {
        "Shapes Controller"@
    } else if id == 14 {
        "Elements Hexagons"@
    } else if id == 15 {
        "Elements Hexagons - Corner"@
    } else if id == 16 {
        "Lines Connector"@
    } else if id == 17 {
        "Light Lines"@
    } else if id == 18 {
        "Light Lines - Single Zone"@
    } else if id == 19 {
        "Controller Cap"@
    } else if id == 20 {
        "Power Connector"@
    } else if id == 29 {
        "Nanoleaf 4D Lightstrip"@
    } else if id == 30 {
        "Skylight Panel"@
    } else if id == 31 {
        "Skylight Controller Primary"@
    } else if id == 32 {
        "Skylight Controller Passive Mode"@
    } else {
        "Unknown"@
    }
}

/// The side length of a shape id, in hundredths of a layout unit.
pub open spec fn shape_side_hundredths(id: u64) -> u32 {
    if id == 0 {
        15000
    } else if id == 1 {
        0
    } else if id == 2 || id == 3 || id == 4 {
        10000
    } else if id == 7 {
        6700
    } else if id == 8 {
        13400
    } else if id == 9 {
        6700
    } else if id == 12 {
        0
    } else if id == 14 {
        13400
    } else if id == 15 {
        4575
    } else if id == 16 {
        1100
    } else if id == 17 {
        15400
    } else if id == 18 {
        7700
    } else if id == 19 || id == 20 {
        1100
    } else if id == 29 {
        5000
    } else if id == 30 || id == 31 || id == 32 {
        18000
    } else {
        10000
    }
}

/// The number of sides a shape is drawn with: triangles 3, hexagons 6, others 4.
pub open spec fn sides_spec(id: u64) -> usize {
    if id == 0 || id == 8 || id == 9 {
        3
    } else if id == 7 || id == 14 || id == 15 {
        6
    } else {
        4
    }
}

impl ShapeType {
    /// The shape with the given id; unknown ids are an `Unknown` square.
    pub fn from_id(id: u64) -> (r: Self)
        ensures
            r.id == id,
            r.name@ == shape_name(id),
            r.side_length_hundredths == shape_side_hundredths(id),
    {
        match id {
            0 => ShapeType { id, name: "Triangle", side_length_hundredths: 15000 },
            1 => ShapeType { id, name: "Rhythm", side_length_hundredths: 0 },
            2 => ShapeType { id, name: "Square", side_length_hundredths: 10000 },
            3 => ShapeType { id, name: "Control Square Master", side_length_hundredths: 10000 },
            4 => ShapeType { id, name: "Control Square Passive", side_length_hundredths: 10000 },
            7 => ShapeType { id, name: "Hexagon (Shapes)", side_length_hundredths: 6700 },
            8 => ShapeType { id, name: "Triangle (Shapes)", side_length_hundredths: 13400 },
            9 => ShapeType { id, name: "Mini Triangle (Shapes)", side_length_hundredths: 6700 },
            12 => ShapeType { id, name: "Shapes Controller", side_length_hundredths: 0 },
            14 => ShapeType { id, name: "Elements Hexagons", side_length_hundredths: 13400 },
            15 => ShapeType {
                id,
                name: "Elements Hexagons - Corner",
                side_length_hundredths: 4575,
            },
            16 => ShapeType { id, name: "Lines Connector", side_length_hundredths: 1100 },
            17 => ShapeType { id, name: "Light Lines", side_length_hundredths: 15400 },
            18 => ShapeType { id, name: "Light Lines - Single Zone", side_length_hundredths: 7700 },
            19 => ShapeType { id, name: "Controller Cap", side_length_hundredths: 1100 },
            20 => ShapeType { id, name: "Power Connector", side_length_hundredths: 1100 },
            29 => ShapeType { id, name: "Nanoleaf 4D Lightstrip", side_length_hundredths: 5000 },
            30 => ShapeType { id, name: "Skylight Panel", side_length_hundredths: 18000 },
            31 => ShapeType {
                id,
                name: "Skylight Controller Primary",
                side_length_hundredths: 18000,
            },
            32 => ShapeType {
                id,
                name: "Skylight Controller Passive Mode",
                side_length_hundredths: 18000,
            },
            _ => ShapeType { id, name: "Unknown", side_length_hundredths: 10000 },
        }
    }

    /// The number of sides the shape is drawn with (see `sides_spec`).
    pub fn num_sides(&self) -> (r: usize)
        ensures
            r == sides_spec(self.id),
    {
        match self.id {
            0 | 8 | 9 => 3,
            2..=4 => 4,
            7 | 14 | 15 => 6,
            _ => 4,
        }
    }
}

/// One entry of the layout's `positionData`, each field as read from the JSON
/// (`as_u64` / `as_i64`), or nothing where it is missing or of another type.
#[derive(Clone, Copy, Debug)]
pub struct LayoutRecord {
    pub panel_id: Option<u64>,
    pub x: Option<i64>,
    pub y: Option<i64>,
    pub orientation: Option<u64>,
    pub shape_type: Option<u64>,
}

/// A panel of the layout, as displayed.
#[derive(Clone, Copy, Debug)]
pub struct PanelInfo {
    pub panel_id: u16,
    pub x: i16,
    pub y: i16,
    pub orientation: u16,
    pub shape_type: ShapeType,
}

/// A field of a record, 0 where missing.
pub open spec fn or_zero_u(v: Option<u64>) -> u64 {
    match v {
        Some(v) => v,
        None => 0,
    }
}

/// A field of a record, 0 where missing.
pub open spec fn or_zero_i(v: Option<i64>) -> i64 {
    match v {
        Some(v) => v,
        None => 0,
    }
}

/// The panel info a record describes: missing fields are 0, values are cut to the
/// width of their field as `as` cuts them.
pub open spec fn panel_info_matches(info: PanelInfo, rec: LayoutRecord) -> bool {
    &&& info.panel_id == or_zero_u(rec.panel_id) as u16
    &&& info.x == or_zero_i(rec.x) as i16
    &&& info.y == or_zero_i(rec.y) as i16
    &&& info.orientation == or_zero_u(rec.orientation) as u16
    &&& info.shape_type.id == or_zero_u(rec.shape_type)
    &&& info.shape_type.name@ == shape_name(or_zero_u(rec.shape_type))
    &&& info.shape_type.side_length_hundredths == shape_side_hundredths(or_zero_u(rec.shape_type))
}

/// Builds the panel infos of a layout's `positionData` entries, one per entry, in
/// order (see `panel_info_matches`).
pub fn parse_layout(position_data: &[LayoutRecord]) -> (r: Vec<PanelInfo>)
    ensures
        r@.len() == position_data@.len(),
        forall|i: int| 0 <= i < r@.len() ==> panel_info_matches(#[trigger] r@[i], position_data@[i]),
{
    let mut r: Vec<PanelInfo> = Vec::new();
    let mut i: usize = 0;
    while i < position_data.len()
        invariant
            i <= position_data.len(),
            r@.len() == i,
            forall|k: int| 0 <= k < i ==> panel_info_matches(#[trigger] r@[k], position_data@[k]),
        decreases position_data.len() - i,
    {
        let rec = position_data[i];
        let panel_id = match rec.panel_id {
            Some(v) => v,
            None => 0,
        };
        let x = match rec.x {
            Some(v) => v,
            None => 0,
        };
        let y = match rec.y {
            Some(v) => v,
            None => 0,
        };
        let orientation = match rec.orientation {
            Some(v) => v,
            None => 0,
        };
        let shape = match rec.shape_type {
            Some(v) => v,
            None => 0,
        };
        r.push(
            PanelInfo {
                panel_id: panel_id as u16,
                x: x as i16,
                y: y as i16,
                orientation: orientation as u16,
                shape_type: ShapeType::from_id(shape),
            },
        );
        i = i + 1;
    }
    r
}

/// Whether a record describes a light panel: shape ids 0 to 11 are light panels,
/// 12 and above controllers and connectors (a missing shape counts as 0).
pub open spec fn is_light_panel(rec: LayoutRecord) -> bool {
    or_zero_u(rec.shape_type) < 12
}

/// The records that `get_panels` can read: each has a panel id, and each light
/// panel has both coordinates.
pub open spec fn readable_layout(records: Seq<LayoutRecord>) -> bool {
    forall|i: int|
        0 <= i < records.len() ==> (#[trigger] records[i]).panel_id is Some && (is_light_panel(
            records[i],
        ) ==> records[i].x is Some && records[i].y is Some)
}

/// Whether `get_panels` can read the records (see `readable_layout`).
pub fn layout_readable(records: &[LayoutRecord]) -> (r: bool)
    ensures
        r == readable_layout(records@),
{
    let mut i: usize = 0;
    while i < records.len()
        invariant
            i <= records.len(),
            forall|k: int|
                0 <= k < i ==> (#[trigger] records@[k]).panel_id is Some && (is_light_panel(records@[k])
                    ==> records@[k].x is Some && records@[k].y is Some),
        decreases records.len() - i,
    {
        let rec = records[i];
        if rec.panel_id.is_none() {
            return false;
        }
        let shape = match rec.shape_type {
            Some(v) => v,
            None => 0,
        };
        if shape < 12 && (rec.x.is_none() || rec.y.is_none()) {
            return false;
        }
        i = i + 1;
    }
    true
}

/// The panel a light-panel record describes.
pub open spec fn record_panel(rec: LayoutRecord) -> Panel {
    Panel {
        id: rec.panel_id.unwrap() as u16,
        x: rec.x.unwrap() as i16,
        y: rec.y.unwrap() as i16,
    }
}

/// The panels of the light-panel records, in order.
pub open spec fn light_panels(records: Seq<LayoutRecord>) -> Seq<Panel>
    decreases records.len(),
{
    if records.len() == 0 {
        seq![]
    } else if is_light_panel(records.last()) {
        light_panels(records.drop_last()).push(record_panel(records.last()))
    } else {
        light_panels(records.drop_last())
    }
}

/// The light panels of a layout, in layout order, controllers and connectors left
/// out (see `light_panels`).
pub fn get_panels(position_data: &[LayoutRecord]) -> (r: Vec<Panel>)
    requires
        readable_layout(position_data@),
    ensures
        r@ == light_panels(position_data@),
{
    let mut r: Vec<Panel> = Vec::new();
    let mut i: usize = 0;
    while i < position_data.len()
        invariant
            i <= position_data.len(),
            readable_layout(position_data@),
            r@ == light_panels(position_data@.subrange(0, i as int)),
        decreases position_data.len() - i,
    {
        let rec = position_data[i];
        assert(position_data@.subrange(0, i + 1).drop_last() =~= position_data@.subrange(0, i as int));
        let id = match rec.panel_id {
            Some(v) => v,
            None => {
                assert(position_data@[i as int].panel_id is Some);
                0
            },
        };
        let shape = match rec.shape_type {
            Some(v) => v,
            None => 0,
        };
        if shape < 12 {
            let (x, y) = match (rec.x, rec.y) {
                (Some(x), Some(y)) => (x, y),
                _ => {
                    assert(false);
                    (0, 0)
                },
            };
            r.push(Panel { id: id as u16, x: x as i16, y: y as i16 });
        }
        i = i + 1;
    }
    assert(position_data@.subrange(0, position_data.len() as int) =~= position_data@);
    r
}

/// The smallest and largest coordinates of a layout, `(min_x, max_x, min_y,
/// max_y)`; nothing for an empty layout.
pub open spec fn is_bounds(panels: Seq<PanelInfo>, b: (i16, i16, i16, i16)) -> bool {
    &&& forall|i: int| 0 <= i < panels.len() ==> b.0 <= #[trigger] panels[i].x <= b.1
    &&& forall|i: int| 0 <= i < panels.len() ==> b.2 <= #[trigger] panels[i].y <= b.3
    &&& exists|i: int| 0 <= i < panels.len() && panels[i].x == b.0
    &&& exists|i: int| 0 <= i < panels.len() && panels[i].x == b.1
    &&& exists|i: int| 0 <= i < panels.len() && panels[i].y == b.2
    &&& exists|i: int| 0 <= i < panels.len() && panels[i].y == b.3
}

/// The bounds of a layout (see `is_bounds`), printed with the panel table.
pub fn layout_bounds(panels: &[PanelInfo]) -> (r: Option<(i16, i16, i16, i16)>)
    ensures
        panels@.len() == 0 <==> r is None,
        r matches Some(b) ==> is_bounds(panels@, b),
{
    if panels.len() == 0 {
        return None;
    }
    let mut b = (panels[0].x, panels[0].x, panels[0].y, panels[0].y);
    let mut w = (0usize, 0usize, 0usize, 0usize);
    let mut i: usize = 1;
    while i < panels.len()
        invariant
            1 <= i <= panels.len(),
            forall|k: int| 0 <= k < i ==> b.0 <= #[trigger] panels@[k].x <= b.1,
            forall|k: int| 0 <= k < i ==> b.2 <= #[trigger] panels@[k].y <= b.3,
            w.0 < i && panels@[w.0 as int].x == b.0,
            w.1 < i && panels@[w.1 as int].x == b.1,
            w.2 < i && panels@[w.2 as int].y == b.2,
            w.3 < i && panels@[w.3 as int].y == b.3,
        decreases panels.len() - i,
    {
        let p = panels[i];
        if p.x < b.0 {
            b.0 = p.x;
            w.0 = i;
        }
        if p.x > b.1 {
            b.1 = p.x;
            w.1 = i;
        }
        if p.y < b.2 {
            b.2 = p.y;
            w.2 = i;
        }
        if p.y > b.3 {
            b.3 = p.y;
            w.3 = i;
        }
        i = i + 1;
    }
    Some(b)
}

} // verus!
