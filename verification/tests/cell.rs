use mondrian::cell::Cell;

fn area(cell: &Cell) -> u64 {
    cell.width as u64 * cell.height as u64
}

fn share_area(a: &Cell, b: &Cell) -> bool {
    let ax: u64 = a.x as u64;
    let ay: u64 = a.y as u64;
    let bx: u64 = b.x as u64;
    let by: u64 = b.y as u64;
    let left: u64 = ax.max(bx);
    let right: u64 = (ax + a.width as u64).min(bx + b.width as u64);
    let top: u64 = ay.max(by);
    let bottom: u64 = (ay + a.height as u64).min(by + b.height as u64);
    left < right && top < bottom
}

#[test]
fn new_cell_is_white() {
    let cell = Cell::new(1, 2, 3, 4);
    assert_eq!(1, cell.x);
    assert_eq!(2, cell.y);
    assert_eq!(3, cell.width);
    assert_eq!(4, cell.height);
    assert_eq!((255, 255, 255), cell.get_fill());
}

#[test]
fn new_with_fill_keeps_the_fill() {
    let cell = Cell::new_with_fill(5, 6, 7, 8, (34, 80, 149));
    assert_eq!(5, cell.x);
    assert_eq!(6, cell.y);
    assert_eq!(7, cell.width);
    assert_eq!(8, cell.height);
    assert_eq!((34, 80, 149), cell.get_fill());
}

#[test]
fn set_fill_changes_the_fill_only() {
    let mut cell = Cell::new(5, 6, 7, 8);
    cell.set_fill((221, 1, 0));
    assert_eq!((221, 1, 0), cell.get_fill());
    assert_eq!(Cell::new_with_fill(5, 6, 7, 8, (221, 1, 0)), cell);
}

#[test]
fn split_horizontally_gives_top_and_bottom() {
    let cell = Cell::new_with_fill(10, 20, 100, 60, (1, 2, 3));
    let (top, bottom) = cell.split_horizontally(45).unwrap();
    assert_eq!(Cell::new(10, 20, 100, 25), top);
    assert_eq!(Cell::new(10, 45, 100, 35), bottom);
    assert_eq!(area(&cell), area(&top) + area(&bottom));
    assert!(!share_area(&top, &bottom));
}

#[test]
fn split_horizontally_takes_both_edges() {
    let cell = Cell::new(10, 20, 100, 60);
    let (top, bottom) = cell.split_horizontally(20).unwrap();
    assert_eq!(Cell::new(10, 20, 100, 0), top);
    assert_eq!(Cell::new(10, 20, 100, 60), bottom);
    let (top, bottom) = cell.split_horizontally(80).unwrap();
    assert_eq!(Cell::new(10, 20, 100, 60), top);
    assert_eq!(Cell::new(10, 80, 100, 0), bottom);
}

#[test]
fn split_horizontally_fails_outside_the_cell() {
    let cell = Cell::new(10, 20, 100, 60);
    assert_eq!(None, cell.split_horizontally(19));
    assert_eq!(None, cell.split_horizontally(81));
    assert_eq!(None, cell.split_horizontally(0));
    assert_eq!(None, cell.split_horizontally(u32::MAX));
}

#[test]
fn split_vertically_gives_left_and_right() {
    let cell = Cell::new_with_fill(10, 20, 100, 60, (1, 2, 3));
    let (left, right) = cell.split_vertically(35).unwrap();
    assert_eq!(Cell::new(10, 20, 25, 60), left);
    assert_eq!(Cell::new(35, 20, 75, 60), right);
    assert_eq!(area(&cell), area(&left) + area(&right));
    assert!(!share_area(&left, &right));
}

#[test]
fn split_vertically_takes_both_edges() {
    let cell = Cell::new(10, 20, 100, 60);
    let (left, right) = cell.split_vertically(10).unwrap();
    assert_eq!(Cell::new(10, 20, 0, 60), left);
    assert_eq!(Cell::new(10, 20, 100, 60), right);
    let (left, right) = cell.split_vertically(110).unwrap();
    assert_eq!(Cell::new(10, 20, 100, 60), left);
    assert_eq!(Cell::new(110, 20, 0, 60), right);
}

#[test]
fn split_vertically_fails_outside_the_cell() {
    let cell = Cell::new(10, 20, 100, 60);
    assert_eq!(None, cell.split_vertically(9));
    assert_eq!(None, cell.split_vertically(111));
    assert_eq!(None, cell.split_vertically(u32::MAX));
}

#[test]
fn splits_work_at_the_end_of_the_coordinates() {
    let cell = Cell::new(u32::MAX - 10, u32::MAX - 20, 10, 20);
    let (left, right) = cell.split_vertically(u32::MAX - 4).unwrap();
    assert_eq!(Cell::new(u32::MAX - 10, u32::MAX - 20, 6, 20), left);
    assert_eq!(Cell::new(u32::MAX - 4, u32::MAX - 20, 4, 20), right);
    let (top, bottom) = cell.split_horizontally(u32::MAX).unwrap();
    assert_eq!(Cell::new(u32::MAX - 10, u32::MAX - 20, 10, 20), top);
    assert_eq!(Cell::new(u32::MAX - 10, u32::MAX, 10, 0), bottom);
    assert_eq!(None, cell.split_vertically(u32::MAX - 11));
}

#[test]
fn split_four_ways_gives_the_quadrants_in_rows() {
    let cell = Cell::new_with_fill(10, 20, 100, 60, (9, 9, 9));
    let ((tl, tr), (bl, br)) = cell.split_four_ways(40, 30).unwrap();
    assert_eq!(Cell::new(10, 20, 30, 10), tl);
    assert_eq!(Cell::new(40, 20, 70, 10), tr);
    assert_eq!(Cell::new(10, 30, 30, 50), bl);
    assert_eq!(Cell::new(40, 30, 70, 50), br);
    assert_eq!(area(&cell), area(&tl) + area(&tr) + area(&bl) + area(&br));
    let parts = [tl, tr, bl, br];
    let mut i: usize = 0;
    while i < 4 {
        let mut j: usize = i + 1;
        while j < 4 {
            assert!(!share_area(&parts[i], &parts[j]));
            j += 1;
        }
        i += 1;
    }
}

#[test]
fn split_four_ways_fails_where_a_line_lies_outside() {
    let cell = Cell::new(10, 20, 100, 60);
    assert_eq!(None, cell.split_four_ways(9, 30));
    assert_eq!(None, cell.split_four_ways(111, 30));
    assert_eq!(None, cell.split_four_ways(40, 19));
    assert_eq!(None, cell.split_four_ways(40, 81));
    assert!(cell.split_four_ways(10, 20).is_some());
    assert!(cell.split_four_ways(110, 80).is_some());
}
