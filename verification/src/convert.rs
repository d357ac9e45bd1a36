//! The geometry tree converter: walks a GeoJSON document and rewrites every
//! coordinate pair with a caller-supplied pair transform, leaving everything
//! else untouched.

use vstd::prelude::*;

use crate::json::Json;
use crate::json::first_key;
use crate::json::has_key;
use crate::json::lemma_entry_replace;
use crate::json::lemma_first_key_of;
use crate::json::same_except;

verus! {

/// The pair transform accepts every pair of number texts.
pub open spec fn pair_callable<F: Fn(String, String) -> (String, String)>(f: F) -> bool {
    forall|a: String, b: String| #[trigger] call_requires(f, (a, b))
}

/// How `new` relates to `old` when `old` is the `"coordinates"` value of a
/// `Point`: if the value is an array whose first two elements are numbers,
/// those two elements are replaced by an output of the pair transform
/// (longitude first) and every further element, an altitude say, is kept;
/// any malformed value is left untouched.
pub open spec fn point_rel<F: Fn(String, String) -> (String, String)>(
    f: F,
    old: Json,
    new: Json,
) -> bool {
    match old {
        Json::Arr(v) => {
            if v@.len() >= 2 && v@[0] is Num && v@[1] is Num {
                &&& new is Arr
                &&& new->Arr_0@.len() == v@.len()
                &&& (exists|p: (String, String)|
                    {
                        &&& #[trigger] call_ensures(f, (v@[0]->Num_0, v@[1]->Num_0), p)
                        &&& new->Arr_0@[0] == Json::Num(p.0)
                        &&& new->Arr_0@[1] == Json::Num(p.1)
                    })
                &&& (forall|i: int| 2 <= i < v@.len() ==> new->Arr_0@[i] == v@[i])
            } else {
                new == old
            }
        },
        _ => new == old,
    }
}

/// How `new` relates to `old` for a `"coordinates"` value nested `depth`
/// array levels above a coordinate pair: depth 0 is a pair (`Point`), depth 1
/// a line or multipoint, depth 2 a polygon or multilinestring, depth 3 a
/// multipolygon. An array recurses element by element one level lower; a
/// non-array is left untouched.
pub open spec fn coords_rel<F: Fn(String, String) -> (String, String)>(
    f: F,
    depth: nat,
    old: Json,
    new: Json,
) -> bool
    decreases depth,
{
    if depth == 0 {
        point_rel(f, old, new)
    } else {
        match old {
            Json::Arr(v) => {
                &&& new is Arr
                &&& new->Arr_0@.len() == v@.len()
                &&& (forall|i: int|
                    0 <= i < v@.len() ==> coords_rel(
                        f,
                        (depth - 1) as nat,
                        v@[i],
                        #[trigger] new->Arr_0@[i],
                    ))
            },
            _ => new == old,
        }
    }
}

/// The nesting depth of the `"coordinates"` value for a geometry type tag:
/// how many array levels stand above a coordinate pair.
pub open spec fn geom_depth(tag: Seq<char>) -> Option<nat> {
    if tag == "Point"@ {
        Some(0 as nat)
    } else if tag == "MultiPoint"@ || tag == "LineString"@ {
        Some(1 as nat)
    } else if tag == "Polygon"@ || tag == "MultiLineString"@ {
        Some(2 as nat)
    } else if tag == "MultiPolygon"@ {
        Some(3 as nat)
    } else {
        None
    }
}

/// What a geometry object's type tag asks of the converter.
enum GeomKind {
    /// A coordinate-bearing geometry with the given nesting depth.
    Coords(u8),
    /// A geometry collection: each entry of `"geometries"` is a geometry.
    Collection,
    /// An unknown tag: the node is left untouched.
    Other,
}

spec fn spec_geom_kind(tag: Seq<char>) -> GeomKind {
    if tag == "GeometryCollection"@ {
        GeomKind::Collection
    } else {
        match geom_depth(tag) {
            Some(d) => GeomKind::Coords(d as u8),
            None => GeomKind::Other,
        }
    }
}

spec fn spec_geom_case(g: Json) -> GeomKind {
    match g {
        Json::Obj(es) => {
            if !has_key(es@, "type"@) {
                GeomKind::Other
            } else {
                match es@[first_key(es@, "type"@)].1 {
                    Json::Str(tag) => spec_geom_kind(tag@),
                    _ => GeomKind::Other,
                }
            }
        },
        _ => GeomKind::Other,
    }
}

fn classify_geom(tag: &str) -> (r: GeomKind)
    ensures
        r == spec_geom_kind(tag@),
{
    if crate::json::str_eq(tag, "GeometryCollection") {
        GeomKind::Collection
    } else if crate::json::str_eq(tag, "Point") {
        GeomKind::Coords(0)
    } else if crate::json::str_eq(tag, "MultiPoint") || crate::json::str_eq(tag, "LineString") {
        GeomKind::Coords(1)
    } else if crate::json::str_eq(tag, "Polygon") || crate::json::str_eq(tag, "MultiLineString") {
        GeomKind::Coords(2)
    } else if crate::json::str_eq(tag, "MultiPolygon") {
        GeomKind::Coords(3)
    } else {
        GeomKind::Other
    }
}

fn geom_case(g: &Json) -> (r: GeomKind)
    ensures
        r == spec_geom_case(*g),
{
    match g {
        Json::Obj(entries) => {
            match crate::json::find_key(entries, "type") {
                Some(ti) => {
                    proof {
                        lemma_first_key_of(entries@, "type"@, ti as int);
                    }
                    match &entries[ti].1 {
                        Json::Str(tag) => classify_geom(tag.as_str()),
                        _ => GeomKind::Other,
                    }
                },
                None => GeomKind::Other,
            }
        },
        _ => GeomKind::Other,
    }
}

/// How `new` relates to `old` when `old` stands where a geometry object is
/// expected. A coordinate-bearing geometry has the value of its first
/// `"coordinates"` entry rewritten at the depth its type tag dictates; a
/// `"GeometryCollection"` has each element of its `"geometries"` array
/// rewritten as a geometry in turn; every other entry of the object, and any
/// node without a recognized shape, is left untouched.
pub open spec fn geom_rel<F: Fn(String, String) -> (String, String)>(
    f: F,
    old: Json,
    new: Json,
) -> bool
    decreases old,
{
    match old {
        Json::Obj(es) => {
            if !has_key(es@, "type"@) {
                new == old
            } else {
                match es@[first_key(es@, "type"@)].1 {
                    Json::Str(tag) => {
                        if tag@ == "GeometryCollection"@ {
                            if !has_key(es@, "geometries"@) {
                                new == old
                            } else {
                                let gi = first_key(es@, "geometries"@);
                                &&& new is Obj
                                &&& same_except(es@, new->Obj_0@, gi)
                                &&& geoms_value_rel(f, es@[gi].1, new->Obj_0@[gi].1)
                            }
                        } else {
                            match geom_depth(tag@) {
                                Some(d) => {
                                    if !has_key(es@, "coordinates"@) {
                                        new == old
                                    } else {
                                        let ci = first_key(es@, "coordinates"@);
                                        &&& new is Obj
                                        &&& same_except(es@, new->Obj_0@, ci)
                                        &&& coords_rel(f, d, es@[ci].1, new->Obj_0@[ci].1)
                                    }
                                },
                                None => new == old,
                            }
                        }
                    },
                    _ => new == old,
                }
            }
        },
        _ => new == old,
    }
}

/// How `new` relates to `old` when `old` is the value of a `"geometries"`
/// entry: an array has each element rewritten as a geometry; a non-array is
/// left untouched.
pub open spec fn geoms_value_rel<F: Fn(String, String) -> (String, String)>(
    f: F,
    old: Json,
    new: Json,
) -> bool
    decreases old,
{
    match old {
        Json::Arr(v) => {
            &&& new is Arr
            &&& new->Arr_0@.len() == v@.len()
            &&& (forall|i: int| 0 <= i < v@.len() ==> geom_rel(f, v@[i], #[trigger] new->Arr_0@[i]))
        },
        _ => new == old,
    }
}

/// Rewrites every coordinate pair inside one geometry object; leaves
/// unrecognized or malformed nodes untouched.
pub fn convert_geometry<F: Fn(String, String) -> (String, String)>(f: &F, geom: Json) -> (r: Json)
    requires
        pair_callable(*f),
    ensures
        geom_rel(*f, geom, r),
    decreases geom,
{
    let kind = geom_case(&geom);
    match kind {
        GeomKind::Coords(d) => {
            match geom {
                Json::Obj(mut entries) => {
                    let ghost es0 = entries@;
                    match crate::json::find_key(&entries, "coordinates") {
                        Some(ci) => {
                            proof {
                                lemma_first_key_of(es0, "coordinates"@, ci as int);
                            }
                            let (k, v) = entries.remove(ci);
                            let nv = convert_coords(f, v, d);
                            entries.insert(ci, (k, nv));
                            proof {
                                lemma_entry_replace(es0, ci as int, (k, nv));
                            }
                            Json::Obj(entries)
                        },
                        None => Json::Obj(entries),
                    }
                },
                other => other,
            }
        },
        GeomKind::Collection => {
            match geom {
                Json::Obj(mut entries) => {
                    let ghost es0 = entries@;
                    match crate::json::find_key(&entries, "geometries") {
                        Some(gi) => {
                            proof {
                                lemma_first_key_of(es0, "geometries"@, gi as int);
                            }
                            let (k, v) = entries.remove(gi);
                            proof {
                                assert(v == geom->Obj_0@[gi as int].1);
                                assert(decreases_to!(geom => geom->Obj_0));
                                assert(decreases_to!(geom->Obj_0 => geom->Obj_0@[gi as int]));
                                assert(decreases_to!(
                                    geom->Obj_0@[gi as int] => geom->Obj_0@[gi as int].1));
                            }
                            let nv = convert_geometries_value(f, v);
                            entries.insert(gi, (k, nv));
                            proof {
                                lemma_entry_replace(es0, gi as int, (k, nv));
                            }
                            Json::Obj(entries)
                        },
                        None => Json::Obj(entries),
                    }
                },
                other => other,
            }
        },
        GeomKind::Other => geom,
    }
}

/// Rewrites every element of a `"geometries"` array as a geometry; leaves a
/// non-array value untouched.
pub fn convert_geometries_value<F: Fn(String, String) -> (String, String)>(
    f: &F,
    node: Json,
) -> (r: Json)
    requires
        pair_callable(*f),
    ensures
        geoms_value_rel(*f, node, r),
    decreases node,
{
    match node {
        Json::Arr(mut v) => {
            let ghost orig = v@;
            let n = v.len();
            let mut i: usize = 0;
            while i < n
                invariant
                    n == orig.len(),
                    v@.len() == orig.len(),
                    i <= n,
                    pair_callable(*f),
                    node is Arr,
                    node->Arr_0@ == orig,
                    forall|j: int| 0 <= j < i ==> geom_rel(*f, orig[j], #[trigger] v@[j]),
                    forall|j: int| i <= j < orig.len() ==> v@[j] == orig[j],
                decreases n - i,
            {
                let x = v.remove(i);
                proof {
                    assert(x == node->Arr_0@[i as int]);
                    assert(decreases_to!(node => node->Arr_0));
                    assert(decreases_to!(node->Arr_0 => node->Arr_0@[i as int]));
                }
                let y = convert_geometry(f, x);
                v.insert(i, y);
                i = i + 1;
            }
            Json::Arr(v)
        },
        other => other,
    }
}

/// Rewrites the two leading numbers of a `Point` coordinates array with the
/// pair transform; leaves a malformed value untouched.
pub fn convert_point<F: Fn(String, String) -> (String, String)>(f: &F, node: Json) -> (r: Json)
    requires
        pair_callable(*f),
    ensures
        point_rel(*f, node, r),
{
    match node {
        Json::Arr(mut v) => {
            if v.len() >= 2 {
                let numeric = (match (&v[0], &v[1]) {
                    (Json::Num(_), Json::Num(_)) => true,
                    _ => false,
                });
                if numeric {
                    let lon = (match &v[0] {
                        Json::Num(a) => a.clone(),
                        _ => String::new(),
                    });
                    let lat = (match &v[1] {
                        Json::Num(b) => b.clone(),
                        _ => String::new(),
                    });
                    let pair = (*f)(lon, lat);
                    let (nlon, nlat) = pair;
                    let ghost orig = v@;
                    let e0 = v.remove(0);
                    let e1 = v.remove(0);
                    v.insert(0, Json::Num(nlat));
                    v.insert(0, Json::Num(nlon));
                    proof {
                        assert(v@.len() == orig.len());
                        assert forall|i: int| 2 <= i < orig.len() implies v@[i] == orig[i] by {
                            assert(v@[i] == orig.remove(0).remove(0)[i - 2]);
                        }
                    }
                    Json::Arr(v)
                } else {
                    Json::Arr(v)
                }
            } else {
                Json::Arr(v)
            }
        },
        other => other,
    }
}

/// Rewrites every coordinate pair inside a coordinates value nested `depth`
/// array levels above a pair; leaves malformed nodes untouched.
pub fn convert_coords<F: Fn(String, String) -> (String, String)>(
    f: &F,
    node: Json,
    depth: u8,
) -> (r: Json)
    requires
        depth <= 3,
        pair_callable(*f),
    ensures
        coords_rel(*f, depth as nat, node, r),
    decreases depth,
{
    if depth == 0 {
        convert_point(f, node)
    } else {
        match node {
            Json::Arr(mut v) => {
                let ghost orig = v@;
                let n = v.len();
                let mut i: usize = 0;
                while i < n
                    invariant
                        n == orig.len(),
                        v@.len() == orig.len(),
                        i <= n,
                        1 <= depth <= 3,
                        pair_callable(*f),
                        forall|j: int|
                            0 <= j < i ==> coords_rel(
                                *f,
                                (depth - 1) as nat,
                                orig[j],
                                #[trigger] v@[j],
                            ),
                        forall|j: int| i <= j < orig.len() ==> v@[j] == orig[j],
                    decreases n - i,
                {
                    let x = v.remove(i);
                    let y = convert_coords(f, x, depth - 1);
                    v.insert(i, y);
                    i = i + 1;
                }
                Json::Arr(v)
            },
            other => other,
        }
    }
}

/// How `new` relates to `old` when `old` stands where a feature object is
/// expected: the value of the first `"geometry"` entry is rewritten as a
/// geometry and everything else — properties, ids, a `null` geometry — is
/// left untouched.
pub open spec fn feature_rel<F: Fn(String, String) -> (String, String)>(
    f: F,
    old: Json,
    new: Json,
) -> bool {
    match old {
        Json::Obj(es) => {
            if !has_key(es@, "geometry"@) {
                new == old
            } else {
                let gi = first_key(es@, "geometry"@);
                &&& new is Obj
                &&& same_except(es@, new->Obj_0@, gi)
                &&& geom_rel(f, es@[gi].1, new->Obj_0@[gi].1)
            }
        },
        _ => new == old,
    }
}

/// How `new` relates to `old` when `old` is the value of a `"features"`
/// entry: an array has each element rewritten as a feature; a non-array is
/// left untouched.
pub open spec fn features_value_rel<F: Fn(String, String) -> (String, String)>(
    f: F,
    old: Json,
    new: Json,
) -> bool {
    match old {
        Json::Arr(v) => {
            &&& new is Arr
            &&& new->Arr_0@.len() == v@.len()
            &&& (forall|i: int|
                0 <= i < v@.len() ==> feature_rel(f, v@[i], #[trigger] new->Arr_0@[i]))
        },
        _ => new == old,
    }
}

/// What a document's top-level type tag asks of the converter.
enum DocKind {
    /// Each element of `"features"` is a feature.
    FeatureCollection,
    /// The document itself is a feature.
    Feature,
    /// Each element of `"geometries"` is a geometry.
    GeometryCollection,
    /// Any other top level: the document is left untouched.
    Other,
}

spec fn spec_doc_case(doc: Json) -> DocKind {
    match doc {
        Json::Obj(es) => {
            if !has_key(es@, "type"@) {
                DocKind::Other
            } else {
                match es@[first_key(es@, "type"@)].1 {
                    Json::Str(tag) => {
                        if tag@ == "FeatureCollection"@ {
                            DocKind::FeatureCollection
                        } else if tag@ == "Feature"@ {
                            DocKind::Feature
                        } else if tag@ == "GeometryCollection"@ {
                            DocKind::GeometryCollection
                        } else {
                            DocKind::Other
                        }
                    },
                    _ => DocKind::Other,
                }
            }
        },
        _ => DocKind::Other,
    }
}

fn doc_case(doc: &Json) -> (r: DocKind)
    ensures
        r == spec_doc_case(*doc),
{
    match doc {
        Json::Obj(entries) => {
            match crate::json::find_key(entries, "type") {
                Some(ti) => {
                    proof {
                        lemma_first_key_of(entries@, "type"@, ti as int);
                    }
                    match &entries[ti].1 {
                        Json::Str(tag) => {
                            if crate::json::str_eq(tag.as_str(), "FeatureCollection") {
                                DocKind::FeatureCollection
                            } else if crate::json::str_eq(tag.as_str(), "Feature") {
                                DocKind::Feature
                            } else if crate::json::str_eq(tag.as_str(), "GeometryCollection") {
                                DocKind::GeometryCollection
                            } else {
                                DocKind::Other
                            }
                        },
                        _ => DocKind::Other,
                    }
                },
                None => DocKind::Other,
            }
        },
        _ => DocKind::Other,
    }
}

/// How a converted document relates to the original, for any top-level
/// GeoJSON value: a `FeatureCollection` has each element of its `"features"`
/// array rewritten as a feature, a `Feature` is rewritten as a feature, a
/// `GeometryCollection` has each element of its `"geometries"` array
/// rewritten as a geometry, and any other document is left untouched.
pub open spec fn doc_rel<F: Fn(String, String) -> (String, String)>(
    f: F,
    old: Json,
    new: Json,
) -> bool {
    match old {
        Json::Obj(es) => {
            if !has_key(es@, "type"@) {
                new == old
            } else {
                match es@[first_key(es@, "type"@)].1 {
                    Json::Str(tag) => {
                        if tag@ == "FeatureCollection"@ {
                            if !has_key(es@, "features"@) {
                                new == old
                            } else {
                                let fi = first_key(es@, "features"@);
                                &&& new is Obj
                                &&& same_except(es@, new->Obj_0@, fi)
                                &&& features_value_rel(f, es@[fi].1, new->Obj_0@[fi].1)
                            }
                        } else if tag@ == "Feature"@ {
                            feature_rel(f, old, new)
                        } else if tag@ == "GeometryCollection"@ {
                            if !has_key(es@, "geometries"@) {
                                new == old
                            } else {
                                let gi = first_key(es@, "geometries"@);
                                &&& new is Obj
                                &&& same_except(es@, new->Obj_0@, gi)
                                &&& geoms_value_rel(f, es@[gi].1, new->Obj_0@[gi].1)
                            }
                        } else {
                            new == old
                        }
                    },
                    _ => new == old,
                }
            }
        },
        _ => new == old,
    }
}

/// Rewrites every coordinate pair inside one feature object; leaves any
/// other part of the feature untouched.
pub fn convert_feature<F: Fn(String, String) -> (String, String)>(f: &F, feat: Json) -> (r: Json)
    requires
        pair_callable(*f),
    ensures
        feature_rel(*f, feat, r),
{
    match feat {
        Json::Obj(mut entries) => {
            let ghost es0 = entries@;
            match crate::json::find_key(&entries, "geometry") {
                Some(gi) => {
                    proof {
                        lemma_first_key_of(es0, "geometry"@, gi as int);
                    }
                    let (k, v) = entries.remove(gi);
                    let nv = convert_geometry(f, v);
                    entries.insert(gi, (k, nv));
                    proof {
                        lemma_entry_replace(es0, gi as int, (k, nv));
                    }
                    Json::Obj(entries)
                },
                None => Json::Obj(entries),
            }
        },
        other => other,
    }
}

/// Rewrites every element of a `"features"` array as a feature; leaves a
/// non-array value untouched.
pub fn convert_features_value<F: Fn(String, String) -> (String, String)>(
    f: &F,
    node: Json,
) -> (r: Json)
    requires
        pair_callable(*f),
    ensures
        features_value_rel(*f, node, r),
{
    match node {
        Json::Arr(mut v) => {
            let ghost orig = v@;
            let n = v.len();
            let mut i: usize = 0;
            while i < n
                invariant
                    n == orig.len(),
                    v@.len() == orig.len(),
                    i <= n,
                    pair_callable(*f),
                    forall|j: int| 0 <= j < i ==> feature_rel(*f, orig[j], #[trigger] v@[j]),
                    forall|j: int| i <= j < orig.len() ==> v@[j] == orig[j],
                decreases n - i,
            {
                let x = v.remove(i);
                let y = convert_feature(f, x);
                v.insert(i, y);
                i = i + 1;
            }
            Json::Arr(v)
        },
        other => other,
    }
}

/// Rewrites every coordinate pair inside a whole GeoJSON document with the
/// pair transform, preserving all other structure and content.
pub fn convert_document<F: Fn(String, String) -> (String, String)>(f: &F, doc: Json) -> (r: Json)
    requires
        pair_callable(*f),
    ensures
        doc_rel(*f, doc, r),
{
    let kind = doc_case(&doc);
    match kind {
        DocKind::FeatureCollection => {
            match doc {
                Json::Obj(mut entries) => {
                    let ghost es0 = entries@;
                    match crate::json::find_key(&entries, "features") {
                        Some(fi) => {
                            proof {
                                lemma_first_key_of(es0, "features"@, fi as int);
                            }
                            let (k, v) = entries.remove(fi);
                            let nv = convert_features_value(f, v);
                            entries.insert(fi, (k, nv));
                            proof {
                                lemma_entry_replace(es0, fi as int, (k, nv));
                            }
                            Json::Obj(entries)
                        },
                        None => Json::Obj(entries),
                    }
                },
                other => other,
            }
        },
        DocKind::Feature => convert_feature(f, doc),
        DocKind::GeometryCollection => {
            match doc {
                Json::Obj(mut entries) => {
                    let ghost es0 = entries@;
                    match crate::json::find_key(&entries, "geometries") {
                        Some(gi) => {
                            proof {
                                lemma_first_key_of(es0, "geometries"@, gi as int);
                            }
                            let (k, v) = entries.remove(gi);
                            let nv = convert_geometries_value(f, v);
                            entries.insert(gi, (k, nv));
                            proof {
                                lemma_entry_replace(es0, gi as int, (k, nv));
                            }
                            Json::Obj(entries)
                        },
                        None => Json::Obj(entries),
                    }
                },
                other => other,
            }
        },
        DocKind::Other => doc,
    }
}

/// Converts a whole document for a (source, target) datum pair: the forward
/// transform is applied when the pair selects it, the inverse transform when
/// the pair selects that, and an unsupported pair returns the document
/// unchanged rather than failing.
pub fn convert_for_datum_pair<
    FW: Fn(String, String) -> (String, String),
    FI: Fn(String, String) -> (String, String),
>(doc: Json, source: &str, target: &str, fwd: &FW, inv: &FI) -> (r: Json)
    requires
        pair_callable(*fwd),
        pair_callable(*inv),
    ensures
        crate::datum::spec_select(source@, target@) == Some(crate::datum::Direction::WgsToGcj)
            ==> doc_rel(*fwd, doc, r),
        crate::datum::spec_select(source@, target@) == Some(crate::datum::Direction::GcjToWgs)
            ==> doc_rel(*inv, doc, r),
        crate::datum::spec_select(source@, target@) is None ==> r == doc,
{
    match crate::datum::select_transform(source, target) {
        Some(crate::datum::Direction::WgsToGcj) => convert_document(fwd, doc),
        Some(crate::datum::Direction::GcjToWgs) => convert_document(inv, doc),
        None => doc,
    }
}

} // verus!

