use raster_filters::paths::{input_path, output_path};

#[test]
fn input_path_lies_under_uploads() {
    assert_eq!(input_path("cat.ppm"), "uploads/cat.ppm");
    assert_eq!(input_path(""), "uploads/");
}

#[test]
fn output_path_lies_under_output() {
    assert_eq!(output_path("cat.ppm"), "output/cat.ppm");
    assert_eq!(output_path("a/b.ppm"), "output/a/b.ppm");
}
