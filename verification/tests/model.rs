use artistlibrepaint::brush::{BrushKind, Tool};
use artistlibrepaint::document::{DocumentState, LayerFill};
use artistlibrepaint::layer::Layer;
use artistlibrepaint::session::{desktop_variable_names, is_kde_desktop};
use artistlibrepaint::stroke::{
    soft_dot_schedule, stroke_plan_for, Compositing, Dash, LineCap, Mark, SoftDot, StrokePlan,
};
use artistlibrepaint::text::{decimal_string, str_equal};
use artistlibrepaint::workspace::AppState;

const ALL_KINDS: [BrushKind; 8] = [
    BrushKind::Round,
    BrushKind::Pencil,
    BrushKind::Ink,
    BrushKind::Marker,
    BrushKind::Airbrush,
    BrushKind::Spray,
    BrushKind::Calligraphy,
    BrushKind::Chalk,
];

#[test]
fn decimal_string_writes_numbers_like_format() {
    for n in [0usize, 7, 10, 42, 99, 100, 700, 123456789, usize::MAX] {
        assert_eq!(decimal_string(n), format!("{}", n));
    }
}

#[test]
fn str_equal_compares_characters() {
    assert!(str_equal("Crayon", "Crayon"));
    assert!(!str_equal("Crayon", "Craie"));
    assert!(!str_equal("Crayon", "Crayons"));
    assert!(str_equal("", ""));
    assert!(str_equal("Aérographe", "Aérographe"));
    assert!(!str_equal("Aerographe", "Aérographe"));
}

#[test]
fn brush_list_order_and_labels() {
    let all = BrushKind::all();
    let labels: Vec<&str> = all.iter().map(|(_, l)| *l).collect();
    assert_eq!(
        labels,
        vec![
            "Pinceau rond",
            "Crayon",
            "Encre",
            "Marqueur",
            "Aérographe",
            "Spray",
            "Calligraphie",
            "Craie"
        ]
    );
    let kinds: Vec<BrushKind> = all.iter().map(|(k, _)| *k).collect();
    assert_eq!(kinds, ALL_KINDS.to_vec());
}

#[test]
fn brush_label_lookup_roundtrip() {
    for k in ALL_KINDS {
        assert_eq!(BrushKind::from_label(k.label()), Some(k));
    }
    assert_eq!(BrushKind::from_label("Encre"), Some(BrushKind::Ink));
    assert_eq!(BrushKind::from_label("Gomme"), None);
    assert_eq!(BrushKind::from_label("crayon"), None);
    assert_eq!(BrushKind::from_label(""), None);
}

#[test]
fn eraser_clears_and_brush_paints_over() {
    let p = stroke_plan_for(Tool::Eraser, BrushKind::Round);
    assert_eq!(
        p,
        StrokePlan {
            compositing: Compositing::Clear,
            source_alpha_pct: None,
            mark: Mark::Line { width_pct: 100, cap: LineCap::Round, dash: None },
        }
    );
    let p = stroke_plan_for(Tool::Brush, BrushKind::Round);
    assert_eq!(p.compositing, Compositing::Over);
    assert_eq!(p.source_alpha_pct, Some(100));
}

#[test]
fn brush_table() {
    let b = |k| stroke_plan_for(Tool::Brush, k);
    assert_eq!(
        b(BrushKind::Pencil),
        StrokePlan {
            compositing: Compositing::Over,
            source_alpha_pct: Some(65),
            mark: Mark::Line { width_pct: 70, cap: LineCap::Round, dash: None },
        }
    );
    assert_eq!(
        b(BrushKind::Ink).mark,
        Mark::Line { width_pct: 125, cap: LineCap::Round, dash: None }
    );
    assert_eq!(b(BrushKind::Ink).source_alpha_pct, Some(100));
    assert_eq!(
        b(BrushKind::Marker),
        StrokePlan {
            compositing: Compositing::Over,
            source_alpha_pct: Some(35),
            mark: Mark::Line { width_pct: 240, cap: LineCap::Square, dash: None },
        }
    );
    assert_eq!(
        b(BrushKind::Calligraphy).mark,
        Mark::Line { width_pct: 55, cap: LineCap::Butt, dash: None }
    );
    assert_eq!(
        b(BrushKind::Chalk),
        StrokePlan {
            compositing: Compositing::Over,
            source_alpha_pct: Some(55),
            mark: Mark::Line {
                width_pct: 130,
                cap: LineCap::Round,
                dash: Some(Dash { on_pct: 45, off_pct: 70 }),
            },
        }
    );
    assert_eq!(b(BrushKind::Airbrush).mark, Mark::SoftDots { spray: false });
    assert_eq!(b(BrushKind::Spray).mark, Mark::SoftDots { spray: true });
}

#[test]
fn eraser_keeps_brush_shape_and_alpha_override() {
    let p = stroke_plan_for(Tool::Eraser, BrushKind::Pencil);
    assert_eq!(p.compositing, Compositing::Clear);
    assert_eq!(p.source_alpha_pct, Some(65));
    assert_eq!(p.mark, Mark::Line { width_pct: 70, cap: LineCap::Round, dash: None });
    let p = stroke_plan_for(Tool::Eraser, BrushKind::Spray);
    assert_eq!(p.source_alpha_pct, None);
    assert_eq!(p.mark, Mark::SoftDots { spray: true });
}

#[test]
fn airbrush_dot_schedule() {
    let v = soft_dot_schedule(1, false);
    assert_eq!(v.len(), 8);
    assert_eq!(v[0], SoftDot { step: 0, angle_index: 0, ring: 0 });
    assert_eq!(v[3], SoftDot { step: 0, angle_index: 3, ring: 3 });
    assert_eq!(v[4], SoftDot { step: 1, angle_index: 4, ring: 0 });
    assert_eq!(v[7], SoftDot { step: 1, angle_index: 7, ring: 3 });
}

#[test]
fn spray_dot_schedule() {
    let v = soft_dot_schedule(2, true);
    assert_eq!(v.len(), 30);
    assert_eq!(v[5], SoftDot { step: 0, angle_index: 5, ring: 0 });
    assert_eq!(v[9], SoftDot { step: 0, angle_index: 9, ring: 4 });
    assert_eq!(v[17], SoftDot { step: 1, angle_index: 17, ring: 2 });
    assert_eq!(v[29], SoftDot { step: 2, angle_index: 29, ring: 4 });
    let v = soft_dot_schedule(0, true);
    assert_eq!(v.len(), 10);
}

#[test]
fn layer_new_is_visible() {
    let l = Layer::new("Calque 3", false);
    assert_eq!(l.name, "Calque 3");
    assert!(l.visible);
    assert!(!l.fill_white);
    assert!(Layer::new("Arrière-plan", true).fill_white);
}

#[test]
fn new_document_has_background_layer() {
    let d = DocumentState::new("Image_1.png", 700, 500);
    assert_eq!(d.title, "Image_1.png");
    assert_eq!((d.width, d.height), (700, 500));
    assert_eq!(d.layers.len(), 1);
    assert_eq!(d.layers[0].name, "Arrière-plan");
    assert!(d.layers[0].visible);
    assert!(d.layers[0].fill_white);
    assert_eq!(d.active_layer_idx, 0);
    assert_eq!(d.tool, Tool::Brush);
    assert_eq!(d.brush_kind, BrushKind::Round);
}

#[test]
fn layer_names() {
    let mut d = DocumentState::new("t", 10, 10);
    assert_eq!(d.layer_name(None), "Calque 2");
    assert_eq!(d.layer_name(Some("Encrage")), "Encrage");
    for _ in 0..9 {
        let n = d.layer_name(None);
        d.add_layer(n);
    }
    assert_eq!(d.layers[9].name, "Calque 10");
    assert_eq!(d.layer_name(None), "Calque 11");
}

#[test]
fn added_layer_is_on_top_and_active() {
    let mut d = DocumentState::new("t", 10, 10);
    d.add_layer("A".to_string());
    d.add_layer("B".to_string());
    assert_eq!(d.layers.len(), 3);
    assert_eq!(d.active_layer_idx, 2);
    assert_eq!(d.layers[2].name, "B");
    assert!(d.layers[2].visible);
    assert!(!d.layers[2].fill_white);
}

#[test]
fn only_layer_is_never_removed() {
    let mut d = DocumentState::new("t", 10, 10);
    assert_eq!(d.remove_active_layer(), None);
    assert_eq!(d.layers.len(), 1);
    assert_eq!(d.active_layer_idx, 0);
    assert_eq!(d.layers[0].name, "Arrière-plan");
}

#[test]
fn remove_undoes_add() {
    let mut d = DocumentState::new("t", 10, 10);
    d.add_layer("A".to_string());
    d.active_layer_idx = 0;
    d.add_layer("B".to_string());
    assert_eq!(d.remove_active_layer(), Some(2));
    let names: Vec<&str> = d.layers.iter().map(|l| l.name.as_str()).collect();
    assert_eq!(names, vec!["Arrière-plan", "A"]);
    assert_eq!(d.active_layer_idx, 1);
}

#[test]
fn remove_keeps_active_index_on_a_layer() {
    let mut d = DocumentState::new("t", 10, 10);
    d.add_layer("A".to_string());
    d.add_layer("B".to_string());
    d.active_layer_idx = 1;
    assert_eq!(d.remove_active_layer(), Some(1));
    assert_eq!(d.active_layer_idx, 1);
    assert_eq!(d.layers[1].name, "B");
    d.active_layer_idx = 0;
    assert_eq!(d.remove_active_layer(), Some(0));
    assert_eq!(d.active_layer_idx, 0);
    assert_eq!(d.layers.len(), 1);
    assert_eq!(d.layers[0].name, "B");
    assert_eq!(d.remove_active_layer(), None);
}

#[test]
fn clearing_fills_background_white_and_others_transparent() {
    let mut d = DocumentState::new("t", 10, 10);
    assert_eq!(d.clear_active_layer(), Some(LayerFill::White));
    d.add_layer("A".to_string());
    assert_eq!(d.clear_active_layer(), Some(LayerFill::Transparent));
    d.active_layer_idx = 5;
    assert_eq!(d.clear_active_layer(), None);
}

#[test]
fn clearing_follows_the_layer_not_its_position() {
    let mut d = DocumentState::new("d", 8, 8);
    let n = d.layer_name(None);
    d.add_layer(n);
    d.active_layer_idx = 0;
    assert_eq!(d.remove_active_layer(), Some(0));
    assert_eq!(d.layers[0].name, "Calque 2");
    assert_eq!(d.active_layer_idx, 0);
    assert_eq!(d.clear_active_layer(), Some(LayerFill::Transparent));
}

#[test]
fn hidden_layer_takes_no_stroke() {
    let mut d = DocumentState::new("t", 10, 10);
    assert_eq!(d.stroke_plan(), Some(stroke_plan_for(Tool::Brush, BrushKind::Round)));
    d.set_tool(Tool::Eraser);
    d.set_brush_kind(BrushKind::Marker);
    assert_eq!(d.stroke_plan(), Some(stroke_plan_for(Tool::Eraser, BrushKind::Marker)));
    d.layers[0].visible = false;
    assert_eq!(d.stroke_plan(), None);
    d.active_layer_idx = 3;
    assert_eq!(d.stroke_plan(), None);
}

#[test]
fn layer_info_text() {
    let mut d = DocumentState::new("t", 10, 10);
    assert_eq!(d.layer_info_text().as_deref(), Some("Calque actif (1/1) : Arrière-plan"));
    let n = d.layer_name(None);
    d.add_layer(n);
    assert_eq!(d.layer_info_text().as_deref(), Some("Calque actif (2/2) : Calque 2"));
    d.active_layer_idx = 9;
    assert_eq!(d.layer_info_text(), None);
}

#[test]
fn compositing_takes_visible_layers_bottom_first() {
    let mut d = DocumentState::new("t", 10, 10);
    d.add_layer("A".to_string());
    d.add_layer("B".to_string());
    d.add_layer("C".to_string());
    assert_eq!(d.visible_layers(), vec![0, 1, 2, 3]);
    d.layers[1].visible = false;
    d.layers[3].visible = false;
    assert_eq!(d.visible_layers(), vec![0, 2]);
}

#[test]
fn tabs_are_titled_in_opening_order() {
    let mut a = AppState::new();
    assert_eq!(a.doc_count, 0);
    assert_eq!(a.add_tab(), 0);
    assert_eq!(a.add_tab(), 1);
    assert_eq!(a.doc_count, 2);
    assert_eq!(a.documents[0].title, "Image_1.png");
    assert_eq!(a.documents[1].title, "Image_2.png");
    assert_eq!((a.documents[1].width, a.documents[1].height), (700, 500));
    assert_eq!(a.document_title(1).as_deref(), Some("Image_2.png"));
    assert_eq!(a.document_title(2), None);
}

#[test]
fn page_operations_ignore_missing_pages() {
    let mut a = AppState::new();
    a.add_tab();
    a.set_tool(3, Tool::Eraser);
    a.set_brush_kind(3, BrushKind::Ink);
    a.add_layer(3, "X".to_string());
    assert_eq!(a.remove_active_layer(3), None);
    assert_eq!(a.clear_active_layer(3), None);
    assert_eq!(a.stroke_plan(3), None);
    assert_eq!(a.layer_info(3), None);
    assert_eq!(a.new_layer_name(3, None), None);
    assert_eq!(a.documents[0].tool, Tool::Brush);
    assert_eq!(a.documents[0].brush_kind, BrushKind::Round);
    assert_eq!(a.documents[0].layers.len(), 1);
}

#[test]
fn page_operations_reach_the_page() {
    let mut a = AppState::new();
    a.add_tab();
    a.add_tab();
    a.set_tool(1, Tool::Eraser);
    assert_eq!(a.documents[1].tool, Tool::Eraser);
    assert_eq!(a.documents[0].tool, Tool::Brush);
    a.select_brush_label(1, "Marqueur");
    assert_eq!(a.documents[1].brush_kind, BrushKind::Marker);
    a.select_brush_label(1, "Pinceau");
    assert_eq!(a.documents[1].brush_kind, BrushKind::Marker);
    let name = a.new_layer_name(1, None).unwrap();
    assert_eq!(name, "Calque 2");
    a.add_layer(1, name);
    assert_eq!(a.layer_info(1).as_deref(), Some("Calque actif (2/2) : Calque 2"));
    assert_eq!(a.clear_active_layer(1), Some(LayerFill::Transparent));
    assert_eq!(a.stroke_plan(1), Some(stroke_plan_for(Tool::Eraser, BrushKind::Marker)));
    assert_eq!(a.remove_active_layer(1), Some(1));
    assert_eq!(a.layer_info(1).as_deref(), Some("Calque actif (1/1) : Arrière-plan"));
    assert_eq!(a.remove_active_layer(1), None);
    assert_eq!(a.documents[0].layers.len(), 1);
}

#[test]
fn desktop_variables_in_reading_order() {
    assert_eq!(
        desktop_variable_names(),
        vec!["XDG_CURRENT_DESKTOP", "XDG_SESSION_DESKTOP", "DESKTOP_SESSION"]
    );
}

#[test]
fn kde_session_detection() {
    let v = |xs: &[&str]| xs.iter().map(|s| s.to_string()).collect::<Vec<String>>();
    assert!(is_kde_desktop(&v(&["KDE"])));
    assert!(is_kde_desktop(&v(&["kde"])));
    assert!(is_kde_desktop(&v(&["GNOME", "plasmawayland"])));
    assert!(is_kde_desktop(&v(&["ubuntu:KdE"])));
    assert!(is_kde_desktop(&v(&["Plasma"])));
    assert!(!is_kde_desktop(&v(&["GNOME", "ubuntu", "xfce"])));
    assert!(!is_kde_desktop(&v(&["KD", "PLASM"])));
    assert!(!is_kde_desktop(&v(&[])));
    assert!(!is_kde_desktop(&v(&[""])));
}

#[test]
fn closing_a_tab_keeps_the_count_and_later_titles_stay_new() {
    let mut a = AppState::new();
    a.add_tab();
    a.add_tab();
    a.add_tab();
    a.close_document(1);
    assert_eq!(a.documents.len(), 2);
    assert_eq!(a.doc_count, 3);
    assert_eq!(a.documents[0].title, "Image_1.png");
    assert_eq!(a.documents[1].title, "Image_3.png");
    a.close_document(7);
    assert_eq!(a.documents.len(), 2);
    assert_eq!(a.add_tab(), 2);
    assert_eq!(a.documents[2].title, "Image_4.png");
    a.close_document(0);
    a.close_document(0);
    a.close_document(0);
    assert!(a.documents.is_empty());
    assert_eq!(a.doc_count, 4);
    assert_eq!(a.add_tab(), 0);
    assert_eq!(a.documents[0].title, "Image_5.png");
}

#[test]
fn open_titles_stay_distinct() {
    let mut a = AppState::new();
    for _ in 0..12 {
        a.add_tab();
    }
    a.close_document(3);
    a.close_document(9);
    a.add_tab();
    let titles: Vec<&str> = a.documents.iter().map(|d| d.title.as_str()).collect();
    for i in 0..titles.len() {
        for j in (i + 1)..titles.len() {
            assert_ne!(titles[i], titles[j]);
        }
    }
    assert_eq!(titles.last().copied(), Some("Image_13.png"));
}
