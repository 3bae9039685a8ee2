use open_editor_lib::keyframes::keyframe_names;

#[test]
fn keyframes_are_the_jpg_files_in_order() {
    let names: Vec<String> = ["scene-0010.jpg", "scene-0002.jpg", "notes.txt", ".jpg", "scene-0001.JPG", "b.jpg", "a.jpg.png", "scene-0001.jpg"]
        .iter()
        .map(|s| s.to_string())
        .collect();
    assert_eq!(keyframe_names(&names), vec!["b.jpg", "scene-0001.jpg", "scene-0002.jpg", "scene-0010.jpg"]);
}

#[test]
fn keyframe_order_is_the_order_of_strings() {
    let names: Vec<String> = ["é.jpg", "z.jpg", "Z.jpg", "za.jpg", "x.jpg", "x.jpg"].iter().map(|s| s.to_string()).collect();
    let mut expected = names.clone();
    expected.sort();
    assert_eq!(keyframe_names(&names), expected);
    assert!(keyframe_names(&Vec::new()).is_empty());
}
