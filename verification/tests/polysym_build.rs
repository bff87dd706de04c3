use polykit::polysym_build::{
    build_generated_source, build_png_batch_input, build_svg_batch_input, pad_png, padding_offsets, phys_2x, current_color, postprocess_svg, replace_all,
    rewrite_svg_tag, symbol_to_method_name, SymbolAsset,
};

fn asset(name: &str, size: u32, inner_size: u32) -> SymbolAsset {
    SymbolAsset { name: name.to_string(), size, inner_size, weight: "regular".to_string() }
}

#[test]
fn method_names_replace_dots_and_dashes() {
    assert_eq!(symbol_to_method_name("folder.badge.plus"), "folder_badge_plus");
    assert_eq!(symbol_to_method_name("arrow-up.circle"), "arrow_up_circle");
    assert_eq!(symbol_to_method_name("trash"), "trash");
}

#[test]
fn rewrite_skips_xml_declaration_and_sets_viewbox() {
    let svg = "<?xml version=\"1.0\"?><svg xmlns=\"http://www.w3.org/2000/svg\" width=\"20\" height=\"20\" viewBox=\"0 0 20 20\"><path d=\"M0\"/></svg>";
    assert_eq!(
        rewrite_svg_tag(svg, Some("1.0000 2.0000 3.0000 3.0000")),
        "<?xml version=\"1.0\"?><svg xmlns=\"http://www.w3.org/2000/svg\" viewBox=\"1.0000 2.0000 3.0000 3.0000\"><path d=\"M0\"/></svg>"
    );
}

#[test]
fn rewrite_without_geometry_keeps_original_viewbox() {
    let svg = "<svg width=\"20\" viewBox=\"0 0 20 20\" height=\"20\"><g width=\"5\"/></svg>";
    assert_eq!(rewrite_svg_tag(svg, None), "<svg viewBox=\"0 0 20 20\"><g width=\"5\"/></svg>");
}

#[test]
fn rewrite_handles_missing_tag_and_unterminated_values() {
    assert_eq!(rewrite_svg_tag("abc width=\"1\">rest", None), "abc>rest");
    assert_eq!(rewrite_svg_tag("<svg width=\"20", None), "<svg20");
    assert_eq!(rewrite_svg_tag("<svg viewBox=\"0 0", Some("x")), "<svg viewBox=\"x\"0 0");
    assert_eq!(rewrite_svg_tag("<svg viewBox=\"0 0", None), "<svg viewBox=\"0 0\"0 0");
    assert_eq!(rewrite_svg_tag("", None), "");
}

#[test]
fn replace_all_is_left_to_right_without_overlap() {
    assert_eq!(replace_all("aaa", "aa", "b"), "ba");
    assert_eq!(replace_all("abcabc", "bc", ""), "aa");
    assert_eq!(replace_all("none here", "xyz", "q"), "none here");
}

#[test]
fn black_fills_and_strokes_become_current_color() {
    assert_eq!(
        current_color("<path fill=\"#000000\"/><path fill=\"#000\"/><path stroke='#000'/><path fill='#000000'/>"),
        "<path fill=\"currentColor\"/><path fill=\"currentColor\"/><path stroke='currentColor'/><path fill='currentColor'/>"
    );
    assert_eq!(current_color("<path fill=\"#000001\"/>"), "<path fill=\"#000001\"/>");
}

#[test]
fn postprocess_colors_then_rewrites() {
    let svg = "<svg width=\"20\" height=\"20\" viewBox=\"0 0 20 20\"><path fill=\"#000\"/></svg>";
    assert_eq!(
        postprocess_svg(svg, Some("1 1 18 18")),
        "<svg viewBox=\"1 1 18 18\"><path fill=\"currentColor\"/></svg>"
    );
}

#[test]
fn batch_inputs_list_one_line_per_symbol() {
    let assets = vec![asset("trash", 20, 15), asset("bell.slash", 24, 18)];
    assert_eq!(
        build_svg_batch_input(&assets, "out/polysym"),
        "trash -f svg --mode monochrome --size 20 --weight regular --color '#000000' -o out/polysym/trash.svg\n\
         bell.slash -f svg --mode monochrome --size 24 --weight regular --color '#000000' -o out/polysym/bell.slash.svg\n"
    );
    assert_eq!(
        build_png_batch_input(&assets, "out/polysym", "dark", "hierarchical", "#ffffff"),
        "trash -f png --mode hierarchical --size 15 --weight regular --color '#ffffff' -o out/polysym/trash.dark.png\n\
         bell.slash -f png --mode hierarchical --size 18 --weight regular --color '#ffffff' -o out/polysym/bell.slash.dark.png\n"
    );
    assert_eq!(build_svg_batch_input(&[], "out"), "");
}

#[test]
fn generated_source_embeds_each_symbol_and_looks_it_up_by_name() {
    let assets = vec![asset("folder.badge.plus", 20, 15)];
    let src = build_generated_source(&assets, "/out/polysym");
    let expected = [
        "#[allow(dead_code)]\npub struct SfIcons;\n\n#[allow(dead_code)]\nimpl SfIcons {\n",
        "    pub fn folder_badge_plus() -> ::polykit::polysym::SfImage {\n",
        "        ::polykit::polysym::SfImage::new(\n",
        "            include_bytes!(\"/out/polysym/folder.badge.plus.light.png\"),\n",
        "            include_bytes!(\"/out/polysym/folder.badge.plus.dark.png\"),\n",
        "        )\n",
        "    }\n\n",
        "    /// SVG for `folder.badge.plus` with `currentColor` fill \u{2014} style via CSS `color`.\n",
        "    pub fn folder_badge_plus_svg() -> &'static str {\n",
        "        include_str!(\"/out/polysym/folder.badge.plus.svg\")\n",
        "    }\n\n",
        "    /// Look up a symbol's PNG pair by SF Symbol name (e.g. `\"trash\"`).\n",
        "/// Returns `None` if the name was not included in the build manifest.\n",
        "pub fn get(name: &str) -> Option<::polykit::polysym::SfImage> {\n",
        "match name {\n",
        "            \"folder.badge.plus\" => Some(Self::folder_badge_plus()),\n",
        "            _ => None,\n        }\n    }\n\n",
        "    /// Look up a symbol's SVG string by SF Symbol name (e.g. `\"trash\"`).\n",
        "/// Returns `None` if the name was not included in the build manifest.\n",
        "/// The SVG uses `currentColor` fill \u{2014} set the CSS `color` property to tint it.\n",
        "pub fn get_svg(name: &str) -> Option<&'static str> {\n",
        "match name {\n",
        "            \"folder.badge.plus\" => Some(Self::folder_badge_plus_svg()),\n",
        "            _ => None,\n        }\n    }\n",
        "}\n",
    ]
    .concat();
    assert_eq!(src, expected);
}

#[test]
fn generated_source_escapes_names_in_lookups() {
    let assets = vec![asset("a\"b", 20, 15)];
    let src = build_generated_source(&assets, "/d");
    assert!(src.contains("            \"a\\\"b\" => Some(Self::a\"b()),\n"));
}

#[test]
fn generated_source_for_no_symbols_has_only_fallbacks() {
    let src = build_generated_source(&[], "/d");
    assert_eq!(src.matches("_ => None,").count(), 2);
    assert!(!src.contains("pub fn get(name: &str) -> Option<::polykit::polysym::SfImage> {\nmatch name {\n            \""));
}

fn encode_rgba(w: u32, h: u32, rgba: &[u8]) -> Vec<u8> {
    let mut out = Vec::new();
    let mut enc = png::Encoder::new(&mut out, w, h);
    enc.set_color(png::ColorType::Rgba);
    enc.set_depth(png::BitDepth::Eight);
    let mut writer = enc.write_header().unwrap();
    writer.write_image_data(rgba).unwrap();
    writer.finish().unwrap();
    out
}

fn decode_rgba(bytes: &[u8]) -> (u32, u32, Vec<u8>) {
    let decoder = png::Decoder::new(bytes);
    let mut reader = decoder.read_info().unwrap();
    let mut buf = vec![0; reader.output_buffer_size()];
    let info = reader.next_frame(&mut buf).unwrap();
    buf.truncate(info.buffer_size());
    (info.width, info.height, buf)
}

#[test]
fn phys_chunk_is_144_dpi_in_metres() {
    assert_eq!(phys_2x(), [0, 0, 0x16, 0x25, 0, 0, 0x16, 0x25, 1]);
    assert_eq!(u32::from_be_bytes([0, 0, 0x16, 0x25]), 5669);
}

#[test]
fn padding_offsets_centre_the_symbol() {
    assert_eq!(padding_offsets(40, 30, 30, 20), Some((5, 10)));
    assert_eq!(padding_offsets(40, 40, 30, 20), None);
    assert_eq!(padding_offsets(40, 50, 40, 40), None);
}

#[test]
fn pad_png_centres_the_symbol_on_a_transparent_canvas() {
    let red = [255u8, 0, 0, 255];
    let src: Vec<u8> = red.iter().cycle().take(2 * 2 * 4).copied().collect();
    let png_bytes = encode_rgba(2, 2, &src);
    let padded = pad_png(&png_bytes, 4, 2).unwrap().expect("padding applies");
    let (w, h, px) = decode_rgba(&padded);
    assert_eq!((w, h), (4, 4));
    let at = |x: usize, y: usize| &px[(y * 4 + x) * 4..(y * 4 + x) * 4 + 4];
    assert_eq!(at(1, 1), red);
    assert_eq!(at(2, 2), red);
    assert_eq!(at(0, 0), [0, 0, 0, 0]);
    assert_eq!(at(3, 3), [0, 0, 0, 0]);
    let phys_at = padded.windows(4).position(|w| w == b"pHYs").expect("pHYs chunk");
    assert_eq!(&padded[phys_at + 4..phys_at + 13], &[0, 0, 0x16, 0x25, 0, 0, 0x16, 0x25, 1]);
}

#[test]
fn pad_png_skips_full_size_renders_and_rejects_bad_input() {
    let png_bytes = encode_rgba(2, 2, &[0u8; 16]);
    assert_eq!(pad_png(&png_bytes, 2, 2).unwrap(), None);
    assert!(pad_png(b"not a png", 4, 2).is_err());
    let big = encode_rgba(8, 8, &[0u8; 256]);
    assert!(pad_png(&big, 4, 2).is_err());
}
