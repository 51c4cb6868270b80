use qwen_image_studio::engine::Status;
use qwen_image_studio::mcp::{
    as_rgba, as_rgba_from, attach_refs, plan_edit, plan_generate, ready_check, ref_source, resolve_steps, snap,
    EditArgs, GenerateArgs, RefSource,
};

fn gen(prompt: &str) -> GenerateArgs {
    GenerateArgs { prompt: prompt.into(), width: None, height: None, steps: None, seed: None, negative_prompt: None, transparent: None }
}

fn edit(images: Vec<&str>) -> EditArgs {
    EditArgs {
        prompt: "make it red".into(),
        images: images.into_iter().map(|s| s.to_string()).collect(),
        width: Some(700),
        height: None,
        steps: Some(0),
        seed: Some(5),
        transparent: None,
    }
}

#[test]
fn sizes_snap_to_32() {
    assert_eq!(snap(1024), 1024);
    assert_eq!(snap(1000), 992);
    assert_eq!(snap(100), 256);
    assert_eq!(snap(5000), 2048);
    assert_eq!(snap(2047), 2016);
    assert_eq!(snap(snap(777)), snap(777));
}

#[test]
fn steps_clamp() {
    assert_eq!(resolve_steps(None), 20);
    assert_eq!(resolve_steps(Some(0)), 1);
    assert_eq!(resolve_steps(Some(99)), 60);
    assert_eq!(resolve_steps(Some(33)), 33);
}

#[test]
fn rgba_prompt() {
    assert_eq!(
        as_rgba("a red fox.. "),
        "This is an RGBA image with transparency. a red fox. The image has alpha channel and          the background is transparent."
    );
    assert_eq!(as_rgba("An RGBA sticker"), "An RGBA sticker");
    assert_eq!(as_rgba("logo on a Transparent Background"), "logo on a Transparent Background");
    assert_eq!(as_rgba_from("X", "rgba"), "X");
}

#[test]
fn engine_must_be_ready() {
    assert!(ready_check(&Status::Ready).is_ok());
    assert_eq!(ready_check(&Status::Loading).unwrap_err(), "The engine is still loading. Try again in a moment.");
    assert_eq!(ready_check(&Status::Off).unwrap_err(), "The engine is off. Open Qwen Image Studio and press Start.");
    assert_eq!(ready_check(&Status::Stopping).unwrap_err(), "The engine is off. Open Qwen Image Studio and press Start.");
    assert_eq!(
        ready_check(&Status::Error { message: "Port 8765 is in use by another program.".into() }).unwrap_err(),
        "The engine is in an error state: Port 8765 is in use by another program."
    );
}

#[test]
fn generate_defaults() {
    let p = plan_generate(gen("a cat"));
    assert_eq!((p.request.width, p.request.height, p.request.steps, p.request.seed), (1024, 1024, 20, -1));
    assert_eq!(p.request.prompt, "a cat");
    assert_eq!(p.request.negative, "");
    assert!(p.request.refs.is_empty());
    assert_eq!(p.busy, "Generating 1024×1024");
    assert_eq!(p.eta, 56);
}

#[test]
fn generate_options() {
    let mut a = gen("a cat");
    a.width = Some(1500);
    a.height = Some(300);
    a.steps = Some(100);
    a.seed = Some(42);
    a.negative_prompt = Some("blur".into());
    a.transparent = Some(true);
    let p = plan_generate(a);
    assert_eq!((p.request.width, p.request.height, p.request.steps, p.request.seed), (1472, 288, 60, 42));
    assert_eq!(p.request.negative, "blur");
    assert!(p.request.prompt.starts_with("This is an RGBA image"));
    assert_eq!(p.prompt, "a cat");
    assert_eq!(p.busy, "Generating 1472×288");
}

#[test]
fn edit_needs_one_to_ten_references() {
    assert_eq!(plan_edit(edit(vec![])).err().unwrap(), "qwen_edit needs at least one reference image.");
    assert_eq!(plan_edit(edit(vec!["AAAA"; 11])).err().unwrap(), "Qwen-Image-2.1 takes at most 10 reference images.");
    assert!(plan_edit(edit(vec!["AAAA"; 10])).is_ok());
}

#[test]
fn edit_plan() {
    let data_url = format!("data:image/png;base64,{}", "QUJD".repeat(300));
    let p = plan_edit(edit(vec!["C:\\img\\a.png", data_url.as_str(), "QUJD"])).unwrap();
    assert!(matches!(&p.sources[0], RefSource::File(f) if f == "C:\\img\\a.png"));
    assert!(matches!(&p.sources[1], RefSource::Inline(b) if *b == "QUJD".repeat(300)));
    assert!(matches!(&p.sources[2], RefSource::Inline(b) if b == "QUJD"));
    assert_eq!((p.job.request.width, p.job.request.height, p.job.request.steps, p.job.request.seed), (672, 1024, 1, 5));
    assert_eq!(p.job.busy, "Editing");
    assert_eq!(p.job.request.negative, "");
    // 4.5 times the generate estimate: 672x1024 at 1 step is 2 s, floored to 5, times 4.5.
    assert_eq!(p.job.eta, 22);
}

#[test]
fn long_strings_are_base64_even_with_slashes() {
    let long = "a/".repeat(600);
    assert!(matches!(ref_source(&long), RefSource::Inline(b) if b == long));
    assert!(matches!(ref_source("/tmp/x.png"), RefSource::File(_)));
    assert!(matches!(ref_source("no-slash;base64,Zm9v"), RefSource::Inline(b) if b == "Zm9v"));
    // A short data URL holds a slash, so it is taken for a path.
    assert!(matches!(ref_source("data:image/png;base64,Zm9v"), RefSource::File(_)));
}

#[test]
fn file_references_are_encoded() {
    let p = plan_edit(edit(vec!["/img/a.png", "QUJD"])).unwrap();
    let job = attach_refs(p, vec![b"hello".to_vec(), b"ignored".to_vec()]);
    assert_eq!(job.request.refs, vec!["aGVsbG8=".to_string(), "QUJD".to_string()]);
    assert_eq!(job.busy, "Editing");
    assert_eq!(job.prompt, "make it red");
    assert_eq!((job.request.width, job.request.height), (672, 1024));
}
