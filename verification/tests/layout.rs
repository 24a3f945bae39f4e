use kadeu::layout::{
    center, center_along, centered_box, check_centered_along, check_even_split, even_regions,
    settle_center, settle_split, split_evenly, Area, Axis,
};
use kadeu::ui::{Container, Text};

fn assert_even(area: Area, axis: Axis, count: usize, regions: &[Area]) {
    assert_eq!(regions.len(), count);
    let mut at = area.start_along(axis);
    let mut total: u32 = 0;
    for region in regions {
        assert_eq!(region.start_along(axis), at);
        match axis {
            Axis::Horizontal => assert_eq!((region.y, region.height), (area.y, area.height)),
            Axis::Vertical => assert_eq!((region.x, region.width), (area.x, area.width)),
        }
        at += region.extent_along(axis);
        total += u32::from(region.extent_along(axis));
    }
    assert_eq!(total, u32::from(area.extent_along(axis)));
    let longest = regions.iter().map(|r| r.extent_along(axis)).max().unwrap();
    let shortest = regions.iter().map(|r| r.extent_along(axis)).min().unwrap();
    assert!(longest - shortest <= 1);
}

#[test]
fn area_new_cuts_at_the_last_coordinate() {
    assert_eq!(
        Area::new(1, 2, 3, 4),
        Area { x: 1, y: 2, width: 3, height: 4 }
    );
    let cut = Area::new(65530, 65535, 10, 7);
    assert_eq!(cut, Area { x: 65530, y: 65535, width: 5, height: 0 });
    assert!(cut.is_valid());
    assert!(!Area { x: 65535, y: 0, width: 1, height: 1 }.is_valid());
}

#[test]
fn drawable_area_ends_before_the_last_column() {
    assert!(Area::new(0, 0, 10, 3).is_drawable());
    assert!(Area::new(65532, 0, 2, 1).is_drawable());
    assert!(!Area::new(65533, 0, 2, 1).is_drawable());
    assert!(Area::new(65533, 0, 2, 1).is_valid());
    assert!(!Area::new(0, 0, 65535, 1).is_drawable());
    assert!(Area::new(0, 65530, 4, 5).is_drawable());
    assert!(!Area { x: 0, y: 65530, width: 4, height: 6 }.is_drawable());
}

#[test]
fn area_along_an_axis() {
    let area = Area::new(3, 5, 7, 11);
    assert_eq!(area.start_along(Axis::Horizontal), 3);
    assert_eq!(area.start_along(Axis::Vertical), 5);
    assert_eq!(area.extent_along(Axis::Horizontal), 7);
    assert_eq!(area.extent_along(Axis::Vertical), 11);
    assert_eq!(area.with_band(Axis::Horizontal, 4, 2), Area::new(4, 5, 2, 11));
    assert_eq!(area.with_band(Axis::Vertical, 6, 1), Area::new(3, 6, 7, 1));
    assert!(Area::new(9, 5, 1, 11).in_band_of(&area, Axis::Horizontal));
    assert!(!Area::new(9, 5, 1, 11).in_band_of(&area, Axis::Vertical));
}

#[test]
fn clip_keeps_the_shared_cells() {
    let bounds = Area::new(0, 0, 10, 3);
    assert_eq!(Area::new(2, 1, 4, 1).clip(&bounds), Some(Area::new(2, 1, 4, 1)));
    assert_eq!(Area::new(8, 2, 5, 5).clip(&bounds), Some(Area::new(8, 2, 2, 1)));
    assert_eq!(Area::new(10, 0, 5, 3).clip(&bounds), None);
    assert_eq!(Area::new(0, 0, 0, 3).clip(&bounds), None);
}

#[test]
fn partition_law_on_the_named_sizes() {
    for count in [1usize, 2, 3, 5] {
        for width in [10u16, 11, 17] {
            let across = Area::new(0, 0, width, 4);
            assert_even(across, Axis::Horizontal, count, &split_evenly(across, Axis::Horizontal, count));
            assert_even(across, Axis::Horizontal, count, &Container::<Text>::grid(across, Axis::Horizontal, count));
            assert_even(across, Axis::Horizontal, count, &even_regions(across, Axis::Horizontal, count));
            let down = Area::new(7, 9, 4, width);
            assert_even(down, Axis::Vertical, count, &split_evenly(down, Axis::Vertical, count));
            assert_even(down, Axis::Vertical, count, &even_regions(down, Axis::Vertical, count));
        }
    }
}

#[test]
fn partition_with_more_children_than_cells() {
    let area = Area::new(2, 0, 3, 1);
    let regions = split_evenly(area, Axis::Horizontal, 5);
    assert_even(area, Axis::Horizontal, 5, &regions);
    assert_eq!(split_evenly(area, Axis::Horizontal, 0), Vec::<Area>::new());
}

#[test]
fn even_regions_gives_the_remainder_to_the_first() {
    assert_eq!(
        even_regions(Area::new(0, 0, 10, 2), Axis::Horizontal, 3),
        vec![Area::new(0, 0, 4, 2), Area::new(4, 0, 3, 2), Area::new(7, 0, 3, 2)]
    );
    assert_eq!(
        even_regions(Area::new(5, 1, 2, 17), Axis::Vertical, 5),
        vec![
            Area::new(5, 1, 2, 4),
            Area::new(5, 5, 2, 4),
            Area::new(5, 9, 2, 3),
            Area::new(5, 12, 2, 3),
            Area::new(5, 15, 2, 3),
        ]
    );
    assert_eq!(
        even_regions(Area::new(0, 0, 2, 1), Axis::Horizontal, 3),
        vec![Area::new(0, 0, 1, 1), Area::new(1, 0, 1, 1), Area::new(2, 0, 0, 1)]
    );
    assert_eq!(even_regions(Area::new(0, 0, 2, 1), Axis::Horizontal, 0), Vec::<Area>::new());
}

#[test]
fn check_even_split_tells_splits_apart() {
    let area = Area::new(0, 0, 10, 2);
    let good = vec![Area::new(0, 0, 3, 2), Area::new(3, 0, 4, 2), Area::new(7, 0, 3, 2)];
    assert!(check_even_split(area, Axis::Horizontal, 3, &good));
    assert!(!check_even_split(area, Axis::Horizontal, 2, &good));
    assert!(!check_even_split(area, Axis::Vertical, 3, &good));
    let lopsided = vec![Area::new(0, 0, 2, 2), Area::new(2, 0, 4, 2), Area::new(6, 0, 4, 2)];
    assert!(!check_even_split(area, Axis::Horizontal, 3, &lopsided));
    let gap = vec![Area::new(0, 0, 3, 2), Area::new(4, 0, 3, 2), Area::new(7, 0, 3, 2)];
    assert!(!check_even_split(area, Axis::Horizontal, 3, &gap));
    let short = vec![Area::new(0, 0, 3, 2), Area::new(3, 0, 3, 2), Area::new(6, 0, 3, 2)];
    assert!(!check_even_split(area, Axis::Horizontal, 3, &short));
    let shifted = vec![Area::new(1, 0, 3, 2), Area::new(4, 0, 3, 2), Area::new(7, 0, 3, 2)];
    assert!(!check_even_split(area, Axis::Horizontal, 3, &shifted));
    let off_band = vec![Area::new(0, 0, 3, 2), Area::new(3, 1, 4, 2), Area::new(7, 0, 3, 2)];
    assert!(!check_even_split(area, Axis::Horizontal, 3, &off_band));
    assert!(check_even_split(area, Axis::Horizontal, 0, &Vec::new()));
}

#[test]
fn settle_split_keeps_an_even_candidate_and_replaces_another() {
    let area = Area::new(0, 0, 10, 2);
    let good = vec![Area::new(0, 0, 3, 2), Area::new(3, 0, 4, 2), Area::new(7, 0, 3, 2)];
    assert_eq!(settle_split(area, Axis::Horizontal, 3, good.clone()), good);
    let lopsided = vec![Area::new(0, 0, 10, 2), Area::new(10, 0, 0, 2), Area::new(10, 0, 0, 2)];
    assert_eq!(
        settle_split(area, Axis::Horizontal, 3, lopsided),
        vec![Area::new(0, 0, 4, 2), Area::new(4, 0, 3, 2), Area::new(7, 0, 3, 2)]
    );
    assert_eq!(
        settle_split(area, Axis::Horizontal, 2, Vec::new()),
        vec![Area::new(0, 0, 5, 2), Area::new(5, 0, 5, 2)]
    );
}

#[test]
fn centered_box_halves_the_room() {
    let area = Area::new(0, 0, 10, 3);
    assert_eq!(centered_box(area, Axis::Horizontal, 2), Area::new(4, 0, 2, 3));
    assert_eq!(centered_box(area, Axis::Horizontal, 3), Area::new(3, 0, 3, 3));
    assert_eq!(centered_box(area, Axis::Vertical, 1), Area::new(0, 1, 10, 1));
    assert_eq!(centered_box(area, Axis::Horizontal, 40), area);
    assert_eq!(centered_box(Area::new(6, 2, 5, 4), Axis::Vertical, 2), Area::new(6, 3, 5, 2));
}

#[test]
fn check_centered_along_allows_one_cell_either_way() {
    let area = Area::new(0, 0, 10, 3);
    assert!(check_centered_along(area, Axis::Horizontal, 3, Area::new(3, 0, 3, 3)));
    assert!(check_centered_along(area, Axis::Horizontal, 3, Area::new(4, 0, 3, 3)));
    assert!(!check_centered_along(area, Axis::Horizontal, 3, Area::new(2, 0, 3, 3)));
    assert!(!check_centered_along(area, Axis::Horizontal, 3, Area::new(3, 0, 4, 3)));
    assert!(!check_centered_along(area, Axis::Horizontal, 3, Area::new(3, 1, 3, 2)));
    assert!(!check_centered_along(area, Axis::Horizontal, 2, Area::new(5, 0, 2, 3)));
    assert!(check_centered_along(area, Axis::Horizontal, 99, area));
    assert!(!check_centered_along(Area::new(4, 0, 6, 3), Axis::Horizontal, 2, Area::new(3, 0, 2, 3)));
}

#[test]
fn settle_center_keeps_a_centred_candidate_and_replaces_another() {
    let area = Area::new(0, 0, 10, 3);
    assert_eq!(
        settle_center(area, Axis::Horizontal, 3, Area::new(4, 0, 3, 3)),
        Area::new(4, 0, 3, 3)
    );
    assert_eq!(
        settle_center(area, Axis::Horizontal, 3, Area::new(0, 0, 3, 3)),
        Area::new(3, 0, 3, 3)
    );
}

#[test]
fn center_puts_a_box_in_the_middle() {
    let area = Area::new(0, 0, 10, 3);
    assert_eq!(center(area, 2, 1), Area::new(4, 1, 2, 1));
    assert_eq!(center(Area::new(10, 20, 6, 5), 2, 1), Area::new(12, 22, 2, 1));
    assert_eq!(center(area, 200, 100), area);
    assert_eq!(center_along(area, Axis::Vertical, 1), Area::new(0, 1, 10, 1));
    let odd = center_along(area, Axis::Horizontal, 3);
    assert!(odd == Area::new(3, 0, 3, 3) || odd == Area::new(4, 0, 3, 3));
}
