use trueno_viz::grammar::facet::Facet;
use trueno_viz::grammar::geom::{PointShape, SmoothMethod};
use trueno_viz::grammar::stat::Stat;

#[test]
fn test_facet_grid() {
    let f = Facet::grid("category", "year");
    match f {
        Facet::Grid { row, col } => {
            assert_eq!(row, "category");
            assert_eq!(col, "year");
        }
        _ => panic!("Expected Grid"),
    }
}

#[test]
fn test_facet_wrap() {
    let f = Facet::wrap("category", 3);
    match f {
        Facet::Wrap { var, ncol } => {
            assert_eq!(var, "category");
            assert_eq!(ncol, 3);
        }
        _ => panic!("Expected Wrap"),
    }
}

#[test]
fn test_facet_none() {
    let f = Facet::none();
    assert!(matches!(f, Facet::NoFacet));
}

#[test]
fn test_facet_row() {
    let f = Facet::row("group");
    match f {
        Facet::Row { var } => assert_eq!(var, "group"),
        _ => panic!("Expected Row"),
    }
}

#[test]
fn test_facet_col() {
    let f = Facet::col("region");
    match f {
        Facet::Col { var } => assert_eq!(var, "region"),
        _ => panic!("Expected Col"),
    }
}

#[test]
fn test_facet_default() {
    let f = Facet::default();
    assert!(matches!(f, Facet::NoFacet));
}

#[test]
fn test_facet_debug_clone() {
    let facets = vec![
        Facet::none(),
        Facet::row("a"),
        Facet::col("b"),
        Facet::grid("a", "b"),
        Facet::wrap("c", 2),
    ];
    for f in facets {
        let f2 = f.clone();
        let _ = format!("{:?}", f2);
    }
}

#[test]
fn test_point_shape_default() {
    assert_eq!(PointShape::default(), PointShape::Circle);
}

#[test]
fn test_smooth_method_default() {
    assert_eq!(SmoothMethod::default(), SmoothMethod::Loess);
}

#[test]
fn test_smooth_methods_debug() {
    let methods = [SmoothMethod::Loess, SmoothMethod::Linear];
    for m in methods {
        let debug = format!("{m:?}");
        assert!(!debug.is_empty());
    }
}

#[test]
fn test_point_shape_clone_eq() {
    let shapes = [
        PointShape::Circle,
        PointShape::Square,
        PointShape::Triangle,
        PointShape::Diamond,
        PointShape::Cross,
        PointShape::X,
    ];
    for shape in shapes {
        let cloned = shape;
        assert_eq!(shape, cloned);
    }
}

#[test]
fn test_stat_bin() {
    let stat = Stat::bin(20);
    match stat {
        Stat::Bin { bins } => assert_eq!(bins, 20),
        _ => panic!("Expected Bin stat"),
    }
}

#[test]
fn test_stat_bin2d() {
    let stat = Stat::bin2d(10, 15);
    match stat {
        Stat::Bin2d { bins_x, bins_y } => {
            assert_eq!(bins_x, 10);
            assert_eq!(bins_y, 15);
        }
        _ => panic!("Expected Bin2d stat"),
    }
}

#[test]
fn test_stat_identity() {
    assert!(matches!(Stat::identity(), Stat::Identity));
}

#[test]
fn test_stat_count() {
    assert!(matches!(Stat::count(), Stat::Count));
}

#[test]
fn test_stat_density() {
    assert!(matches!(Stat::density(), Stat::Density));
}

#[test]
fn test_stat_boxplot() {
    assert!(matches!(Stat::boxplot(), Stat::Boxplot));
}

#[test]
fn test_stat_smooth() {
    assert!(matches!(Stat::smooth(), Stat::Smooth));
}

#[test]
fn test_stat_sum() {
    assert!(matches!(Stat::sum(), Stat::Sum));
}

#[test]
fn test_stat_mean() {
    assert!(matches!(Stat::mean(), Stat::Mean));
}

#[test]
fn test_stat_debug() {
    // Verify Debug impl works for all variants
    let variants: Vec<Stat> = vec![
        Stat::identity(),
        Stat::count(),
        Stat::bin(10),
        Stat::density(),
        Stat::boxplot(),
        Stat::smooth(),
        Stat::bin2d(5, 5),
        Stat::sum(),
        Stat::mean(),
    ];
    for v in variants {
        let _ = format!("{:?}", v);
    }
}

#[test]
fn test_stat_clone() {
    let s1 = Stat::bin(42);
    let s2 = s1.clone();
    match s2 {
        Stat::Bin { bins } => assert_eq!(bins, 42),
        _ => panic!("Clone failed"),
    }
}
