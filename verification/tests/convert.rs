use geojson_datum::convert::convert_document;
use geojson_datum::convert::convert_for_datum_pair;
use geojson_datum::convert::convert_geometry;
use geojson_datum::datum::select_transform;
use geojson_datum::datum::Direction;
use geojson_datum::json::find_key;
use geojson_datum::json::str_eq;
use geojson_datum::json::Json;

fn num(t: &str) -> Json {
    Json::Num(t.to_string())
}

fn text(t: &str) -> Json {
    Json::Str(t.to_string())
}

fn arr(v: Vec<Json>) -> Json {
    Json::Arr(v)
}

fn obj(entries: Vec<(&str, Json)>) -> Json {
    Json::Obj(entries.into_iter().map(|(k, v)| (k.to_string(), v)).collect())
}

/// A pair transform that marks which slot each number text went through.
fn mark(lon: String, lat: String) -> (String, String) {
    (format!("lon({})", lon), format!("lat({})", lat))
}

/// A second transform, to tell the forward and inverse slots apart.
fn mark_inv(lon: String, lat: String) -> (String, String) {
    (format!("ilon({})", lon), format!("ilat({})", lat))
}

fn assert_same(actual: &Json, expected: &Json) {
    assert_eq!(format!("{:?}", actual), format!("{:?}", expected));
}

/// Counts the `Num` leaves whose text starts with the given prefix.
fn count_marked(j: &Json, prefix: &str) -> usize {
    match j {
        Json::Num(t) => {
            if t.starts_with(prefix) {
                1
            } else {
                0
            }
        }
        Json::Arr(v) => v.iter().map(|x| count_marked(x, prefix)).sum(),
        Json::Obj(es) => es.iter().map(|(_, x)| count_marked(x, prefix)).sum(),
        _ => 0,
    }
}

fn point_geom(lon: &str, lat: &str) -> Json {
    obj(vec![
        ("coordinates", arr(vec![num(lon), num(lat)])),
        ("type", text("Point")),
    ])
}

#[test]
fn point_pair_rewritten() {
    let g = point_geom("116.3974", "39.9093");
    let r = convert_geometry(&mark, g);
    let expected = obj(vec![
        (
            "coordinates",
            arr(vec![num("lon(116.3974)"), num("lat(39.9093)")]),
        ),
        ("type", text("Point")),
    ]);
    assert_same(&r, &expected);
}

#[test]
fn point_altitude_preserved() {
    let g = obj(vec![
        ("coordinates", arr(vec![num("1"), num("2"), num("99.5")])),
        ("type", text("Point")),
    ]);
    let r = convert_geometry(&mark, g);
    let expected = obj(vec![
        (
            "coordinates",
            arr(vec![num("lon(1)"), num("lat(2)"), num("99.5")]),
        ),
        ("type", text("Point")),
    ]);
    assert_same(&r, &expected);
}

#[test]
fn short_point_untouched() {
    let g = obj(vec![
        ("coordinates", arr(vec![num("1")])),
        ("type", text("Point")),
    ]);
    let r = convert_geometry(&mark, g);
    let expected = obj(vec![
        ("coordinates", arr(vec![num("1")])),
        ("type", text("Point")),
    ]);
    assert_same(&r, &expected);
}

#[test]
fn non_numeric_pair_untouched() {
    let g = obj(vec![
        ("coordinates", arr(vec![text("east"), num("2")])),
        ("type", text("Point")),
    ]);
    let r = convert_geometry(&mark, g);
    let expected = obj(vec![
        ("coordinates", arr(vec![text("east"), num("2")])),
        ("type", text("Point")),
    ]);
    assert_same(&r, &expected);
}

#[test]
fn unknown_geometry_type_untouched() {
    let g = obj(vec![
        ("coordinates", arr(vec![num("1"), num("2")])),
        ("type", text("Circle")),
    ]);
    let r = convert_geometry(&mark, g);
    let expected = obj(vec![
        ("coordinates", arr(vec![num("1"), num("2")])),
        ("type", text("Circle")),
    ]);
    assert_same(&r, &expected);
}

#[test]
fn missing_coordinates_untouched() {
    let g = obj(vec![("type", text("Point"))]);
    let r = convert_geometry(&mark, g);
    assert_same(&r, &obj(vec![("type", text("Point"))]));
}

#[test]
fn line_string_each_pair_rewritten() {
    let g = obj(vec![
        (
            "coordinates",
            arr(vec![
                arr(vec![num("1"), num("2")]),
                arr(vec![num("3"), num("4")]),
            ]),
        ),
        ("type", text("LineString")),
    ]);
    let r = convert_geometry(&mark, g);
    let expected = obj(vec![
        (
            "coordinates",
            arr(vec![
                arr(vec![num("lon(1)"), num("lat(2)")]),
                arr(vec![num("lon(3)"), num("lat(4)")]),
            ]),
        ),
        ("type", text("LineString")),
    ]);
    assert_same(&r, &expected);
}

#[test]
fn multi_polygon_nesting() {
    let ring1 = arr(vec![
        arr(vec![num("0"), num("0")]),
        arr(vec![num("1"), num("0")]),
        arr(vec![num("1"), num("1")]),
        arr(vec![num("0"), num("0")]),
    ]);
    let ring2 = arr(vec![
        arr(vec![num("5"), num("5")]),
        arr(vec![num("6"), num("5")]),
        arr(vec![num("6"), num("6")]),
        arr(vec![num("5"), num("5")]),
    ]);
    let g = obj(vec![
        (
            "coordinates",
            arr(vec![arr(vec![ring1]), arr(vec![ring2])]),
        ),
        ("type", text("MultiPolygon")),
    ]);
    let r = convert_geometry(&mark, g);
    assert_eq!(count_marked(&r, "lon("), 8);
    assert_eq!(count_marked(&r, "lat("), 8);
    // The nesting is still four arrays deep: polygons, rings, pairs.
    match &r {
        Json::Obj(es) => {
            let (_, coords) = &es[0];
            match coords {
                Json::Arr(polys) => {
                    assert_eq!(polys.len(), 2);
                    for poly in polys {
                        match poly {
                            Json::Arr(rings) => {
                                assert_eq!(rings.len(), 1);
                                for ring in rings {
                                    match ring {
                                        Json::Arr(pairs) => {
                                            assert_eq!(pairs.len(), 4);
                                            for pair in pairs {
                                                match pair {
                                                    Json::Arr(xy) => assert_eq!(xy.len(), 2),
                                                    _ => panic!("pair is not an array"),
                                                }
                                            }
                                        }
                                        _ => panic!("ring is not an array"),
                                    }
                                }
                            }
                            _ => panic!("polygon is not an array"),
                        }
                    }
                }
                _ => panic!("coordinates is not an array"),
            }
        }
        _ => panic!("geometry is not an object"),
    }
}

#[test]
fn polygon_rings_rewritten() {
    let g = obj(vec![
        (
            "coordinates",
            arr(vec![arr(vec![
                arr(vec![num("0"), num("0")]),
                arr(vec![num("2"), num("0")]),
                arr(vec![num("1"), num("2")]),
                arr(vec![num("0"), num("0")]),
            ])]),
        ),
        ("type", text("Polygon")),
    ]);
    let r = convert_geometry(&mark, g);
    assert_eq!(count_marked(&r, "lon("), 4);
    assert_eq!(count_marked(&r, "lat("), 4);
}

#[test]
fn malformed_sibling_does_not_stop_traversal() {
    // The middle entry of the line is not a coordinate pair; it stays as it
    // is while both of its siblings are still converted.
    let g = obj(vec![
        (
            "coordinates",
            arr(vec![
                arr(vec![num("1"), num("2")]),
                text("broken"),
                arr(vec![num("3"), num("4")]),
            ]),
        ),
        ("type", text("LineString")),
    ]);
    let r = convert_geometry(&mark, g);
    let expected = obj(vec![
        (
            "coordinates",
            arr(vec![
                arr(vec![num("lon(1)"), num("lat(2)")]),
                text("broken"),
                arr(vec![num("lon(3)"), num("lat(4)")]),
            ]),
        ),
        ("type", text("LineString")),
    ]);
    assert_same(&r, &expected);
}

#[test]
fn geometry_collection_recurses() {
    let inner = obj(vec![
        ("geometries", arr(vec![point_geom("7", "8")])),
        ("type", text("GeometryCollection")),
    ]);
    let g = obj(vec![
        ("geometries", arr(vec![point_geom("1", "2"), inner])),
        ("type", text("GeometryCollection")),
    ]);
    let r = convert_geometry(&mark, g);
    assert_eq!(count_marked(&r, "lon("), 2);
    assert_eq!(count_marked(&r, "lat("), 2);
}

#[test]
fn feature_collection_null_geometry() {
    let with_point = obj(vec![
        ("geometry", point_geom("10", "20")),
        ("properties", obj(vec![("name", text("a"))])),
        ("type", text("Feature")),
    ]);
    let with_null = obj(vec![
        ("geometry", Json::Null),
        ("properties", obj(vec![("name", text("b")), ("rank", num("7"))])),
        ("type", text("Feature")),
    ]);
    let doc = obj(vec![
        ("features", arr(vec![with_point, with_null])),
        ("type", text("FeatureCollection")),
    ]);
    let r = convert_document(&mark, doc);
    let expected = obj(vec![
        (
            "features",
            arr(vec![
                obj(vec![
                    ("geometry", obj(vec![
                        ("coordinates", arr(vec![num("lon(10)"), num("lat(20)")])),
                        ("type", text("Point")),
                    ])),
                    ("properties", obj(vec![("name", text("a"))])),
                    ("type", text("Feature")),
                ]),
                obj(vec![
                    ("geometry", Json::Null),
                    ("properties", obj(vec![("name", text("b")), ("rank", num("7"))])),
                    ("type", text("Feature")),
                ]),
            ]),
        ),
        ("type", text("FeatureCollection")),
    ]);
    assert_same(&r, &expected);
}

#[test]
fn feature_top_level() {
    let doc = obj(vec![
        ("geometry", point_geom("3", "4")),
        ("type", text("Feature")),
    ]);
    let r = convert_document(&mark, doc);
    let expected = obj(vec![
        ("geometry", obj(vec![
            ("coordinates", arr(vec![num("lon(3)"), num("lat(4)")])),
            ("type", text("Point")),
        ])),
        ("type", text("Feature")),
    ]);
    assert_same(&r, &expected);
}

#[test]
fn geometry_collection_top_level() {
    let doc = obj(vec![
        ("geometries", arr(vec![point_geom("3", "4")])),
        ("type", text("GeometryCollection")),
    ]);
    let r = convert_document(&mark, doc);
    assert_eq!(count_marked(&r, "lon("), 1);
    assert_eq!(count_marked(&r, "lat("), 1);
}

#[test]
fn unknown_top_level_untouched() {
    let doc = obj(vec![
        ("coordinates", arr(vec![num("1"), num("2")])),
        ("type", text("Point")),
    ]);
    // A bare geometry is not a recognized top level for the document walk.
    let r = convert_document(&mark, doc);
    let expected = obj(vec![
        ("coordinates", arr(vec![num("1"), num("2")])),
        ("type", text("Point")),
    ]);
    assert_same(&r, &expected);
}

#[test]
fn features_not_array_untouched() {
    let doc = obj(vec![
        ("features", text("nope")),
        ("type", text("FeatureCollection")),
    ]);
    let r = convert_document(&mark, doc);
    let expected = obj(vec![
        ("features", text("nope")),
        ("type", text("FeatureCollection")),
    ]);
    assert_same(&r, &expected);
}

#[test]
fn select_transform_directions() {
    assert_eq!(select_transform("WGS84", "GCJ02"), Some(Direction::WgsToGcj));
    assert_eq!(select_transform("GCJ02", "WGS84"), Some(Direction::GcjToWgs));
    assert_eq!(select_transform("WGS84", "WGS84"), None);
    assert_eq!(select_transform("GCJ02", "GCJ02"), None);
    assert_eq!(select_transform("BD09", "WGS84"), None);
    assert_eq!(select_transform("", ""), None);
}

#[test]
fn unsupported_pair_document_unchanged() {
    let doc = obj(vec![
        ("features", arr(vec![obj(vec![
            ("geometry", point_geom("10", "20")),
            ("type", text("Feature")),
        ])])),
        ("type", text("FeatureCollection")),
    ]);
    let copy = format!("{:?}", doc);
    let r = convert_for_datum_pair(doc, "WGS84", "WGS84", &mark, &mark_inv);
    assert_eq!(format!("{:?}", r), copy);
}

#[test]
fn supported_pair_picks_the_right_transform() {
    let doc = obj(vec![
        ("geometry", point_geom("10", "20")),
        ("type", text("Feature")),
    ]);
    let copy = obj(vec![
        ("geometry", point_geom("10", "20")),
        ("type", text("Feature")),
    ]);
    let r = convert_for_datum_pair(doc, "WGS84", "GCJ02", &mark, &mark_inv);
    assert_eq!(count_marked(&r, "lon("), 1);
    assert_eq!(count_marked(&r, "ilon("), 0);
    let r2 = convert_for_datum_pair(copy, "GCJ02", "WGS84", &mark, &mark_inv);
    assert_eq!(count_marked(&r2, "ilon("), 1);
    assert_eq!(count_marked(&r2, "lon("), 0);
}

#[test]
fn str_eq_basics() {
    assert!(str_eq("Point", "Point"));
    assert!(!str_eq("Point", "point"));
    assert!(!str_eq("Point", "Poin"));
    assert!(str_eq("", ""));
}

#[test]
fn find_key_first_occurrence() {
    let entries: Vec<(String, Json)> = vec![
        ("a".to_string(), num("1")),
        ("b".to_string(), num("2")),
        ("a".to_string(), num("3")),
    ];
    assert_eq!(find_key(&entries, "a"), Some(0));
    assert_eq!(find_key(&entries, "b"), Some(1));
    assert_eq!(find_key(&entries, "c"), None);
}
