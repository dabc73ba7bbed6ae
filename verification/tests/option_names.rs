//! Options and the names by which they are chosen.
use py_layerd::options::{
    parse_cycle_breaking, parse_direction, parse_edge_routing, parse_layering,
    parse_node_placement, read_direction, CycleBreakingStrategy, EdgeRoutingStrategy,
    LayeringStrategy, LayoutDirection, NodePlacementStrategy, PyLayoutOptions,
};

#[test]
fn directions() {
    for name in ["right", "r", "east", "RIGHT", "R", "East"] {
        assert_eq!(parse_direction(name), Ok(LayoutDirection::Right));
    }
    for name in ["left", "l", "west", "LEFT"] {
        assert_eq!(parse_direction(name), Ok(LayoutDirection::Left));
    }
    for name in ["down", "d", "south", "DOWN"] {
        assert_eq!(parse_direction(name), Ok(LayoutDirection::Down));
    }
    for name in ["up", "u", "north", "UP"] {
        assert_eq!(parse_direction(name), Ok(LayoutDirection::Up));
    }
    for name in ["undefined", "undef", "UNDEF"] {
        assert_eq!(parse_direction(name), Ok(LayoutDirection::Undefined));
    }
    for name in ["", "righ", "rightt", " right", "sideways"] {
        assert_eq!(
            parse_direction(name),
            Err(format!("unknown direction: {name} (use RIGHT/LEFT/DOWN/UP)"))
        );
    }
}

#[test]
fn layerings() {
    for name in ["network_simplex", "networksimplex", "simplex", "Network_Simplex"] {
        assert_eq!(parse_layering(name), Ok(LayeringStrategy::NetworkSimplex));
    }
    for name in ["longest_path", "longestpath"] {
        assert_eq!(parse_layering(name), Ok(LayeringStrategy::LongestPath));
    }
    for name in ["longest_path_source", "longestpathsource"] {
        assert_eq!(parse_layering(name), Ok(LayeringStrategy::LongestPathSource));
    }
    for name in ["coffman_graham", "coffmangraham"] {
        assert_eq!(parse_layering(name), Ok(LayeringStrategy::CoffmanGraham));
    }
    for name in ["min_width", "minwidth"] {
        assert_eq!(parse_layering(name), Ok(LayeringStrategy::MinWidth));
    }
    for name in ["stretch_width", "stretchwidth", "StretchWidth"] {
        assert_eq!(parse_layering(name), Ok(LayeringStrategy::StretchWidth));
    }
    assert_eq!(
        parse_layering("Quick"),
        Err(
            "unknown layering: Quick (use network_simplex/longest_path/coffman_graham/min_width/stretch_width)"
                .to_string()
        )
    );
}

#[test]
fn node_placements() {
    for name in ["brandes_koepf", "brandeskoepf", "bk", "BK"] {
        assert_eq!(parse_node_placement(name), Ok(NodePlacementStrategy::BrandesKoepf));
    }
    assert_eq!(parse_node_placement("Simple"), Ok(NodePlacementStrategy::Simple));
    for name in ["linear_segments", "linearsegments"] {
        assert_eq!(parse_node_placement(name), Ok(NodePlacementStrategy::LinearSegments));
    }
    for name in ["network_simplex", "networksimplex"] {
        assert_eq!(parse_node_placement(name), Ok(NodePlacementStrategy::NetworkSimplex));
    }
    assert_eq!(
        parse_node_placement("simplex"),
        Err(
            "unknown node_placement: simplex (use brandes_koepf/simple/linear_segments/network_simplex)"
                .to_string()
        )
    );
}

#[test]
fn edge_routings() {
    for name in ["orthogonal", "orth", "ORTH"] {
        assert_eq!(parse_edge_routing(name), Ok(EdgeRoutingStrategy::Orthogonal));
    }
    for name in ["polyline", "poly"] {
        assert_eq!(parse_edge_routing(name), Ok(EdgeRoutingStrategy::Polyline));
    }
    for name in ["splines", "spline"] {
        assert_eq!(parse_edge_routing(name), Ok(EdgeRoutingStrategy::Splines));
    }
    assert_eq!(
        parse_edge_routing("X"),
        Err("unknown edge_routing: X (use orthogonal/polyline/splines)".to_string())
    );
}

#[test]
fn cycle_breakings() {
    assert_eq!(parse_cycle_breaking("GREEDY"), Ok(CycleBreakingStrategy::Greedy));
    for name in ["depth_first", "depthfirst", "dfs", "DFS"] {
        assert_eq!(parse_cycle_breaking(name), Ok(CycleBreakingStrategy::DepthFirst));
    }
    for name in ["greedy_model_order", "greedymodelorder"] {
        assert_eq!(parse_cycle_breaking(name), Ok(CycleBreakingStrategy::GreedyModelOrder));
    }
    for name in ["model_order", "modelorder"] {
        assert_eq!(parse_cycle_breaking(name), Ok(CycleBreakingStrategy::ModelOrder));
    }
    assert_eq!(
        parse_cycle_breaking("Bfs"),
        Err(
            "unknown cycle_breaking: Bfs (use greedy/depth_first/greedy_model_order/model_order)"
                .to_string()
        )
    );
}

#[test]
fn case_follows_unicode() {
    // The Kelvin sign is not ASCII, but its lower case is the letter k.
    assert_eq!(parse_node_placement("B\u{212A}"), Ok(NodePlacementStrategy::BrandesKoepf));
    assert!(parse_direction("R\u{130}GHT").is_err());
}

#[test]
fn an_error_repeats_the_name_as_given() {
    assert_eq!(read_direction("RIGHT", &"right".to_string()), Ok(LayoutDirection::Right));
    assert_eq!(
        read_direction("RIGHT", &"RIGHT".to_string()),
        Err("unknown direction: RIGHT (use RIGHT/LEFT/DOWN/UP)".to_string())
    );
}

#[test]
fn the_usual_names_are_accepted() {
    let o = PyLayoutOptions::new(
        "RIGHT",
        "network_simplex",
        "brandes_koepf",
        "orthogonal",
        "greedy",
        20f64.to_bits(),
        21f64.to_bits(),
        10f64.to_bits(),
        11f64.to_bits(),
        12f64.to_bits(),
        7,
        1,
    )
    .unwrap();
    assert_eq!(o.direction, LayoutDirection::Right);
    assert_eq!(o.layering, LayeringStrategy::NetworkSimplex);
    assert_eq!(o.node_placement, NodePlacementStrategy::BrandesKoepf);
    assert_eq!(o.edge_routing, EdgeRoutingStrategy::Orthogonal);
    assert_eq!(o.cycle_breaking, CycleBreakingStrategy::Greedy);
    assert_eq!(f64::from_bits(o.node_node), 20.0);
    assert_eq!(f64::from_bits(o.node_node_between_layers), 21.0);
    assert_eq!(f64::from_bits(o.edge_node), 10.0);
    assert_eq!(f64::from_bits(o.edge_edge), 11.0);
    assert_eq!(f64::from_bits(o.padding), 12.0);
    assert_eq!((o.thoroughness, o.random_seed), (7, 1));
}

#[test]
fn the_first_unknown_name_is_reported() {
    let made = |d: &str, l: &str, n: &str, r: &str, c: &str| {
        PyLayoutOptions::new(d, l, n, r, c, 0, 0, 0, 0, 0, 0, 0)
    };
    let err = made("a", "b", "c", "d", "e").unwrap_err();
    assert_eq!(err, "unknown direction: a (use RIGHT/LEFT/DOWN/UP)");
    assert!(made("up", "b", "c", "d", "e").unwrap_err().starts_with("unknown layering: b "));
    assert!(made("up", "simplex", "c", "d", "e")
        .unwrap_err()
        .starts_with("unknown node_placement: c "));
    assert!(made("up", "simplex", "bk", "d", "e")
        .unwrap_err()
        .starts_with("unknown edge_routing: d "));
    assert!(made("up", "simplex", "bk", "orth", "e")
        .unwrap_err()
        .starts_with("unknown cycle_breaking: e "));
    assert!(made("up", "simplex", "bk", "orth", "dfs").is_ok());
}

#[test]
fn case_makes_no_difference() {
    let a = PyLayoutOptions::new("Up", "MinWidth", "BK", "Poly", "DFS", 0, 0, 0, 0, 0, 3, 4);
    let b = PyLayoutOptions::new("uP", "minwidth", "bk", "pOLY", "dfs", 0, 0, 0, 0, 0, 3, 4);
    assert_eq!(a, b);
    assert!(a.is_ok());
}

#[test]
fn options_show_four_numbers() {
    assert_eq!(
        PyLayoutOptions::repr(0, 1, 20, 255),
        "PyLayoutOptions(direction=0, layering=1, node_placement=20, edge_routing=255)"
    );
}
