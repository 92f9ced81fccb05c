use audioleaf::config::{Axis, Sort};
use audioleaf::panels::{panel_frame, sort_panels_with_orientation, unrotated_coords, Panel};

fn p(id: u16, x: i16, y: i16) -> Panel {
    Panel { id, x, y }
}

fn sorted(panels: &[Panel], axis: Option<Axis>, a: Option<Sort>, b: Option<Sort>) -> Vec<u16> {
    let mut v = panels.to_vec();
    let coords = unrotated_coords(&v);
    sort_panels_with_orientation(&mut v, &coords, axis, a, b);
    v.iter().map(|p| p.id).collect()
}

#[test]
fn default_order_is_y_then_x_ascending() {
    let panels = [p(1, 10, 5), p(2, 0, 5), p(3, 5, 0)];
    assert_eq!(sorted(&panels, None, None, None), vec![3, 2, 1]);
}

#[test]
fn orderings_by_axis_and_direction() {
    let panels = [p(1, 10, 5), p(2, 0, 5), p(3, 5, 0)];
    assert_eq!(sorted(&panels, Some(Axis::X), Some(Sort::Asc), Some(Sort::Asc)), vec![2, 3, 1]);
    assert_eq!(sorted(&panels, Some(Axis::X), Some(Sort::Desc), Some(Sort::Asc)), vec![1, 3, 2]);
    assert_eq!(sorted(&panels, Some(Axis::Y), Some(Sort::Desc), Some(Sort::Desc)), vec![1, 2, 3]);
    assert_eq!(sorted(&panels, Some(Axis::Y), Some(Sort::Asc), Some(Sort::Desc)), vec![3, 1, 2]);
}

#[test]
fn equal_positions_keep_their_order() {
    let panels = [p(7, 1, 1), p(3, 1, 1), p(5, 0, 1)];
    assert_eq!(sorted(&panels, Some(Axis::X), Some(Sort::Asc), Some(Sort::Asc)), vec![5, 7, 3]);
}

#[test]
fn rotated_positions_decide_the_order() {
    let mut v = vec![p(1, 0, 0), p(2, 0, 0)];
    let coords = [(5, 0), (-5, 0)];
    sort_panels_with_orientation(&mut v, &coords, Some(Axis::X), None, None);
    assert_eq!(v[0].id, 2);
}

#[test]
fn udp_frame_layout() {
    let panels = [p(0x0102, 0, 0), p(7, 0, 0)];
    let frame = panel_frame(&panels, &[[10, 20, 30], [40, 50, 60]], 0x0203);
    assert_eq!(
        frame,
        vec![0, 2, 1, 2, 10, 20, 30, 0, 2, 3, 0, 7, 40, 50, 60, 0, 2, 3]
    );
}

#[test]
fn panels_without_colours_stay_zero() {
    let panels = [p(1, 0, 0), p(2, 0, 0)];
    let frame = panel_frame(&panels, &[[1, 1, 1]], 0);
    assert_eq!(frame, vec![0, 2, 0, 1, 1, 1, 1, 0, 0, 0, 0, 0, 0, 0, 0, 0, 0, 0]);
    assert_eq!(panel_frame(&[], &[], 5), vec![0, 0]);
}
