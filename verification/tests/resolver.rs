use template_layout::model::{
    GroupJustification, GroupLayout, GroupPosition, LayerDimensions, LayerInfo, LayoutType,
    MeasuredLayer, Position, RelativeTo,
};
use template_layout::resolver::{find_layer, resolve, LayoutError};
use template_layout::group::{attach_requests, request_of};

fn layer(name: &str) -> MeasuredLayer {
    MeasuredLayer {
        info: LayerInfo { name: name.to_string(), position: None },
        dimensions: LayerDimensions { width: 10, height: 10 },
    }
}

fn asking(name: &str, target: &str, x: u32, y: u32) -> MeasuredLayer {
    MeasuredLayer {
        info: LayerInfo {
            name: name.to_string(),
            position: Some(Position { x, y, relative_to: RelativeTo::Layer(target.to_string()) }),
        },
        dimensions: LayerDimensions { width: 10, height: 10 },
    }
}

fn on_canvas(x: u32, y: u32) -> Position {
    Position { x, y, relative_to: RelativeTo::Canvas }
}

fn relative(x: u32, y: u32, target: &str) -> Position {
    Position { x, y, relative_to: RelativeTo::Layer(target.to_string()) }
}

#[test]
fn reference_takes_target_position() {
    let items = vec![layer("A"), layer("B")];
    for (x, y) in [(0, 0), (5, 9), (1000, 2000)] {
        let positions = vec![on_canvas(30, 40), relative(x, y, "A")];
        let resolved = resolve(&positions, &items).unwrap();
        assert_eq!(resolved, vec![on_canvas(30, 40), relative(30, 40, "A")]);
    }
}

#[test]
fn canvas_positions_pass_through() {
    let items = vec![layer("A"), layer("B"), layer("C")];
    let positions = vec![on_canvas(1, 2), on_canvas(3, 4), on_canvas(5, 6)];
    assert_eq!(resolve(&positions, &items), Ok(positions.clone()));
    let none: Vec<Position> = Vec::new();
    assert_eq!(resolve(&none, &Vec::new()), Ok(Vec::new()));
}

#[test]
fn reference_binds_to_first_of_equal_names() {
    let items = vec![layer("A"), layer("dup"), layer("dup"), layer("B")];
    let positions =
        vec![on_canvas(1, 1), on_canvas(20, 21), on_canvas(30, 31), relative(0, 0, "dup")];
    let resolved = resolve(&positions, &items).unwrap();
    assert_eq!((resolved[3].x, resolved[3].y), (20, 21));
    assert_eq!(find_layer(&items, &"dup".to_string()), Some(1));
    assert_eq!(find_layer(&items, &"B".to_string()), Some(3));
    assert_eq!(find_layer(&items, &"b".to_string()), None);
}

#[test]
fn reference_to_later_layer_and_to_itself() {
    let items = vec![layer("A"), layer("B")];
    let positions = vec![relative(7, 7, "B"), on_canvas(50, 60)];
    let resolved = resolve(&positions, &items).unwrap();
    assert_eq!(resolved, vec![relative(50, 60, "B"), on_canvas(50, 60)]);
    let own = vec![relative(7, 8, "A"), on_canvas(50, 60)];
    assert_eq!(resolve(&own, &items).unwrap(), own);
}

#[test]
fn chained_reference_gets_raw_coordinates() {
    let items = vec![layer("A"), layer("B"), layer("C")];
    let positions = vec![on_canvas(1, 2), relative(10, 20, "A"), relative(100, 200, "B")];
    let once = resolve(&positions, &items).unwrap();
    // C asks for B and gets what B had before B itself was moved
    assert_eq!(once, vec![on_canvas(1, 2), relative(1, 2, "A"), relative(10, 20, "B")]);
    // so a chain is the one case in which a second pass still moves something
    let twice = resolve(&once, &items).unwrap();
    assert_eq!(twice, vec![on_canvas(1, 2), relative(1, 2, "A"), relative(1, 2, "B")]);
    assert_ne!(twice, once);
}

#[test]
fn second_pass_changes_nothing_without_chains() {
    let items = vec![layer("A"), layer("B"), layer("C"), layer("D")];
    let positions =
        vec![on_canvas(1, 2), relative(10, 20, "A"), on_canvas(5, 6), relative(0, 0, "C")];
    let once = resolve(&positions, &items).unwrap();
    let twice = resolve(&once, &items).unwrap();
    assert_eq!(once, twice);
    assert_eq!(
        once,
        vec![on_canvas(1, 2), relative(1, 2, "A"), on_canvas(5, 6), relative(5, 6, "C")]
    );
}

#[test]
fn dangling_reference_is_an_error() {
    let items = vec![layer("A"), layer("B"), layer("C")];
    let positions = vec![on_canvas(1, 2), relative(0, 0, "nowhere"), relative(0, 0, "gone")];
    let error = resolve(&positions, &items).unwrap_err();
    assert_eq!(error, LayoutError::UnresolvedLayerReference { name: "nowhere".to_string() });
    assert_eq!(error.name(), "nowhere");
    assert_eq!(error.message(), "unresolved layer reference: nowhere");
    let later = vec![relative(0, 0, "C"), on_canvas(1, 2), relative(0, 0, "gone")];
    assert_eq!(
        resolve(&later, &items),
        Err(LayoutError::UnresolvedLayerReference { name: "gone".to_string() })
    );
}

#[test]
fn requests_come_from_declared_positions() {
    let items = vec![layer("A"), asking("B", "A", 77, 88), layer("C")];
    assert_eq!(request_of(&items[0]), RelativeTo::Canvas);
    assert_eq!(request_of(&items[1]), RelativeTo::Layer("A".to_string()));
    let laid_out = vec![on_canvas(1, 2), on_canvas(3, 4), on_canvas(5, 6)];
    assert_eq!(
        attach_requests(&laid_out, &items),
        vec![on_canvas(1, 2), relative(3, 4, "A"), on_canvas(5, 6)]
    );
    let declared_on_canvas = MeasuredLayer {
        info: LayerInfo { name: "D".to_string(), position: Some(on_canvas(9, 9)) },
        dimensions: LayerDimensions { width: 1, height: 1 },
    };
    assert_eq!(request_of(&declared_on_canvas), RelativeTo::Canvas);
}

#[test]
fn group_positions_follow_layout_then_requests() {
    let mut policy = GroupLayout::new(LayoutType::Vertical, GroupPosition { x: 4, y: 6 });
    policy.spacing = 5;
    let items = vec![layer("A"), asking("B", "C", 500, 500), layer("C")];
    let positions = policy.calculate_positions(&items).unwrap();
    assert_eq!(
        positions,
        vec![on_canvas(4, 6), relative(4, 36, "C"), on_canvas(4, 36)]
    );
    assert_eq!(policy.try_calculate_positions(&items), Some(Ok(positions)));
    let broken = vec![layer("A"), asking("B", "Z", 0, 0)];
    assert_eq!(
        policy.calculate_positions(&broken),
        Err(LayoutError::UnresolvedLayerReference { name: "Z".to_string() })
    );
    policy.position.y = u32::MAX;
    assert_eq!(policy.try_calculate_positions(&items), None);
    policy.justification = GroupJustification::SpaceBetween;
    assert_eq!(policy.try_calculate_positions(&Vec::new()), Some(Ok(Vec::new())));
}

#[test]
fn duplicates_have_the_same_view() {
    let p = relative(3, 4, "A");
    assert_eq!(p.duplicate(), p);
    assert_eq!(p.relative_to.duplicate(), RelativeTo::Layer("A".to_string()));
    assert_eq!(on_canvas(1, 2).duplicate(), on_canvas(1, 2));
}
