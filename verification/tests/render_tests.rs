use rasterizer::fixed::FX_ONE;
use rasterizer::geometry::Vector3;
use rasterizer::image::{Color, Image};
use rasterizer::model::{Face, Model};
use rasterizer::render::{render, RenderConfig};
use rasterizer::triangle::Shader;
use rasterizer::RenderError;

fn camera_config(width: usize, height: usize) -> RenderConfig {
    RenderConfig {
        width,
        height,
        eye: Vector3::new(0, 0, 3 * FX_ONE),
        center: Vector3::new(0, 0, 0),
        up: Vector3::new(0, FX_ONE, 0),
        light_dir: Vector3::new(0, 0, FX_ONE),
        depth: 255 * FX_ONE,
    }
}

fn facing_triangle_model() -> Model {
    // One triangle in the plane the camera looks at, wound so that its
    // normal points along the light.
    let vs = vec![
        Vector3::new(-FX_ONE / 2, -FX_ONE / 2, 0),
        Vector3::new(FX_ONE / 2, -FX_ONE / 2, 0),
        Vector3::new(0, FX_ONE / 2, 0),
    ];
    let faces = vec![Face::new(vec![0, 2, 1], vec![])];
    Model::new(vs, vec![], faces).unwrap()
}

#[test]
fn render_produces_image_of_requested_size() {
    let model = facing_triangle_model();
    let shader = Shader::Flat { color: Color::new(255, 255, 255, 255) };
    let cfg = camera_config(64, 48);
    let img = render(&model, &shader, &cfg).unwrap();
    assert_eq!(img.width, 64);
    assert_eq!(img.height, 48);
}

#[test]
fn render_lights_some_pixels() {
    let model = facing_triangle_model();
    let shader = Shader::Flat { color: Color::new(255, 255, 255, 255) };
    let cfg = camera_config(64, 64);
    let img = render(&model, &shader, &cfg).unwrap();
    let mut lit: usize = 0;
    for y in 0..64 {
        for x in 0..64 {
            if img.get(x, y) != Color::new(0, 0, 0, 0) {
                lit += 1;
            }
        }
    }
    assert!(lit > 0);
}

#[test]
fn render_culls_face_turned_from_light() {
    // The same triangle wound the other way faces away from the
    // light: nothing is drawn.
    let vs = vec![
        Vector3::new(-FX_ONE / 2, -FX_ONE / 2, 0),
        Vector3::new(FX_ONE / 2, -FX_ONE / 2, 0),
        Vector3::new(0, FX_ONE / 2, 0),
    ];
    let faces = vec![Face::new(vec![0, 1, 2], vec![])];
    let model = Model::new(vs, vec![], faces).unwrap();
    let shader = Shader::Flat { color: Color::new(255, 255, 255, 255) };
    let cfg = camera_config(32, 32);
    let img = render(&model, &shader, &cfg).unwrap();
    for y in 0..32 {
        for x in 0..32 {
            assert_eq!(img.get(x, y), Color::new(0, 0, 0, 0));
        }
    }
}

#[test]
fn render_fails_on_zero_area_face() {
    // A face whose world-space edges are parallel has no normal.
    let vs = vec![
        Vector3::new(0, 0, 0),
        Vector3::new(FX_ONE, 0, 0),
        Vector3::new(2 * FX_ONE, 0, 0),
    ];
    let faces = vec![Face::new(vec![0, 1, 2], vec![])];
    let model = Model::new(vs, vec![], faces).unwrap();
    let shader = Shader::Flat { color: Color::new(255, 255, 255, 255) };
    let cfg = camera_config(16, 16);
    let r = render(&model, &shader, &cfg);
    assert!(r.err() == Some(RenderError::DivisionSingularity));
}

#[test]
fn render_textured_model() {
    let mut diffuse = Image::new(1, 1);
    diffuse.set(0, 0, Color::new(200, 100, 50, 255));
    let vs = vec![
        Vector3::new(-FX_ONE / 2, -FX_ONE / 2, 0),
        Vector3::new(FX_ONE / 2, -FX_ONE / 2, 0),
        Vector3::new(0, FX_ONE / 2, 0),
    ];
    let tcs = vec![Vector3::new(0, 0, 0)];
    let faces = vec![Face::new(vec![0, 2, 1], vec![0, 0, 0])];
    let model = Model::new(vs, tcs, faces).unwrap();
    let shader = Shader::Texture { diffuse };
    let cfg = camera_config(32, 32);
    let img = render(&model, &shader, &cfg).unwrap();
    // The face points straight at the light, so covered pixels carry
    // the map color at full intensity; find at least one.
    let mut found = false;
    for y in 0..32 {
        for x in 0..32 {
            if img.get(x, y) == Color::new(200, 100, 50, 255) {
                found = true;
            }
        }
    }
    assert!(found);
}
