use embedded_graphics_core::pixelcolor::BinaryColor;
use embedded_qr::{QrBuilder, QrDrawable, Version1};

struct TestTarget {
    width: u32,
    pixels: Vec<BinaryColor>,
}

impl TestTarget {
    fn with_size(size: u32) -> Self {
        Self { width: size, pixels: vec![BinaryColor::Off; (size * size) as usize] }
    }

    fn get(&self, x: u32, y: u32) -> BinaryColor {
        self.pixels[(y * self.width + x) as usize]
    }

    fn fill(&mut self, x: i32, y: i32, size: u32, color: BinaryColor) {
        for dy in 0..size as i32 {
            for dx in 0..size as i32 {
                let px = x + dx;
                let py = y + dy;
                if px >= 0 && py >= 0 && (px as u32) < self.width && (py as u32) < self.width {
                    let index = (py as u32 * self.width + px as u32) as usize;
                    self.pixels[index] = color;
                }
            }
        }
    }

    fn draw(&mut self, drawable: &QrDrawable<'_, Version1, BinaryColor>) {
        self.fill(0, 0, drawable.pixel_size(), drawable.light_color());
        for (x, y) in drawable.dark_module_origins() {
            self.fill(x, y, drawable.module_size(), drawable.dark_color());
        }
    }
}

#[test]
fn drawable_defaults_match_qr_quiet_zone() {
    let matrix = QrBuilder::<Version1>::new().build(b"HELLO WORLD").unwrap();
    let drawable = QrDrawable::new(&matrix, BinaryColor::On, BinaryColor::Off);

    assert_eq!(drawable.module_size(), 1);
    assert_eq!(drawable.border(), 0);
    assert_eq!(drawable.pixel_size(), 21);
}

#[test]
fn qrmatrix_drawable_convenience_method_uses_defaults() {
    let matrix = QrBuilder::<Version1>::new().build(b"HELLO WORLD").unwrap();
    let drawable = matrix.into_drawable(BinaryColor::On, BinaryColor::Off);

    assert_eq!(drawable.pixel_size(), 21);
}

#[test]
fn drawable_renders_border_and_scaled_modules() {
    let matrix = QrBuilder::<Version1>::new().build(b"HELLO WORLD").unwrap();
    let drawable = QrDrawable::new(&matrix, BinaryColor::On, BinaryColor::Off)
        .with_module_size(2)
        .with_border(1);
    let mut target = TestTarget::with_size(drawable.pixel_size());

    target.draw(&drawable);

    assert_eq!(target.get(0, 0), BinaryColor::Off);
    assert_eq!(target.get(1, 1), BinaryColor::Off);

    assert_eq!(target.get(2, 2), BinaryColor::On);
    assert_eq!(target.get(3, 3), BinaryColor::On);

    let white_module = (16u32, 16u32);
    assert_eq!(target.get(white_module.0, white_module.1), BinaryColor::Off);
    assert_eq!(drawable.matrix().get(7, 7), false);
}
