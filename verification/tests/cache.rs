use serie::graph::cache::{hash_str, ImageCacheDirKey, ImageCacheFileKey};
use serie::graph::calc::{Edge, EdgeType};

#[test]
fn dir_key_is_canonical_json() {
    let k = ImageCacheDirKey::new(50, 50, 5, 10, 13, vec![[224, 108, 118, 255], [0, 0, 0, 0]]);
    assert_eq!(
        k.canonical_json(),
        "{\"circle_inner_radius\":10,\"circle_outer_radius\":13,\"edge_colors\":[[224,108,118,255],[0,0,0,0]],\"height\":50,\"line_width\":5,\"width\":50}"
    );
}

#[test]
fn file_key_is_canonical_json() {
    let k = ImageCacheFileKey::new(
        1,
        3,
        vec![Edge::new(EdgeType::Vertical, 0, 0), Edge::new(EdgeType::LeftBottom, 2, 1)],
    );
    assert_eq!(k.canonical_json(), "{\"cell_count\":3,\"edges\":[[0,0,0],[9,2,1]],\"pos_x\":1}");
    let empty = ImageCacheFileKey::new(0, 1, vec![]);
    assert_eq!(empty.canonical_json(), "{\"cell_count\":1,\"edges\":[],\"pos_x\":0}");
}

#[test]
fn hash_str_is_hex_sha1() {
    assert_eq!(hash_str(""), "da39a3ee5e6b4b0d3255bfef95601890afd80709");
    assert_eq!(hash_str("abc"), "a9993e364706816aba3e25717850c26c9cd0d89d");
}
