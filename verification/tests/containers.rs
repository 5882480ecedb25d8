use gristmill::geom2d::{IRect, IVec2, Size};
use gristmill::gui::container::{Container, FlowContainer, Padding, TableContainer};

fn area(width: u32) -> IRect {
    IRect::new(IVec2::new(0, 0), Size::new(width, 500))
}

#[test]
fn flow_wraps_at_the_right_edge() {
    let mut flow = FlowContainer::new(Padding::new(5, 2));
    let a = flow.layout_child(area(100), 0, Size::new(40, 10));
    assert_eq!(a, IRect::new(IVec2::new(5, 5), Size::new(40, 10)));
    let b = flow.layout_child(area(100), 1, Size::new(40, 20));
    assert_eq!(b, IRect::new(IVec2::new(47, 5), Size::new(40, 20)));
    let c = flow.layout_child(area(100), 2, Size::new(30, 10));
    // Tallest item on the first line was 20.
    assert_eq!(c, IRect::new(IVec2::new(0, 27), Size::new(30, 10)));
    assert_eq!(flow.line_height, 10);
}

#[test]
fn table_width_and_cells() {
    let mut table = TableContainer::new(&[50, 0, 30], 20, Padding::new(4, 2), None);
    assert_eq!(table.total_container_width, 92);
    assert_eq!(table.column_width(1, 200), 108);
    assert_eq!(table.column_width(1, 50), 0);
    assert_eq!(table.column_width(0, 50), 50);
    let cells: Vec<IRect> = (0..4).map(|i| table.layout_child(area(200), i, Size::new(0, 0))).collect();
    assert_eq!(cells[0], IRect::new(IVec2::new(4, 4), Size::new(50, 20)));
    assert_eq!(cells[1], IRect::new(IVec2::new(56, 4), Size::new(108, 20)));
    assert_eq!(cells[2], IRect::new(IVec2::new(166, 4), Size::new(30, 20)));
    assert_eq!(cells[3], IRect::new(IVec2::new(4, 26), Size::new(50, 20)));
}

#[test]
fn table_between_column_padding_overrides_inside() {
    let mut table = TableContainer::new(&[10, 10], 5, Padding::new(0, 3), Some(7));
    assert_eq!(table.total_container_width, 27);
    table.layout_child(area(100), 0, Size::new(0, 0));
    let second = table.layout_child(area(100), 1, Size::new(0, 0));
    assert_eq!(second.position, IVec2::new(17, 0));
    let third = table.layout_child(area(100), 2, Size::new(0, 0));
    // New rows are spaced by the inside padding.
    assert_eq!(third.position, IVec2::new(0, 8));
    assert_eq!(Padding::new(1, 2).outside(), 1);
    assert_eq!(Padding::new(1, 2).inside(), 2);
}
