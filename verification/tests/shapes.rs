use iced_aksel::radii::{Radii, Radius};
use iced_aksel::render::{Backend, LineExtensions, Renderer, Shape};
use iced_aksel::tick::LabelDecision;

struct Software;

impl Renderer for Software {
    fn preferred_backend(&self) -> Backend {
        Backend::Path
    }
}

struct Dot(u32);

impl Shape<Vec<u32>> for Dot {
    fn render(self, ctx: &mut Vec<u32>) {
        ctx.push(self.0);
    }
}

#[test]
fn renderer_reports_its_backend() {
    assert_eq!(Software.preferred_backend(), Backend::Path);
    assert_ne!(Backend::Mesh, Backend::Path);
}

#[test]
fn shapes_render_into_a_context() {
    let mut ctx = Vec::new();
    Dot(3).render(&mut ctx);
    Dot(4).render(&mut ctx);
    assert_eq!(ctx, vec![3, 4]);
}

#[test]
fn plain_options() {
    let ext = LineExtensions { start: true, end: false };
    assert_eq!(ext, LineExtensions { start: true, end: false });
    assert_ne!(LabelDecision::Render, LabelDecision::Skip);
}

#[test]
fn radius_arithmetic() {
    assert_eq!(Radius::new(2.0f32) * 3.0, Radius(6.0));
    assert_eq!(Radius(6) / 2, Radius(3));
    assert_eq!(Radius(6) + Radius(1), Radius(7));
    assert_eq!(Radius(6) - 1, Radius(5));
    let r = Radii::new(2, 4);
    assert_eq!(r * 2, Radii::new(4, 8));
    assert_eq!(r + Radii::uniform(1), Radii::new(3, 5));
    assert_eq!(r - 1, Radii::new(1, 3));
    assert_eq!(r / Radii::new(2, 4), Radii::uniform(1));
    assert_eq!(r * Radii::new(3, 0), Radii::new(6, 0));
    assert_eq!(Radii::uniform(7).x, Radius(7));
}
