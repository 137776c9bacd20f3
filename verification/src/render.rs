use vstd::prelude::*;
use crate::SCALE;
use crate::div_scale;
use crate::div_trunc;
use crate::div_by;
use crate::scale_down;
use crate::lemma_mul_bound;
use crate::lemma_div_scale_mono;
use crate::lemma_div_scale_exact;
use crate::vector::Point3d;
use crate::vector::PointModel;
use crate::vector::in_range;
use crate::vector::dot_model;
use crate::rotation::Rotation;
use crate::rotation::RotationAxis;
use crate::rotation::rotate_model;
use crate::rotation::lemma_rotate_in_range;
use crate::trig::ANGLE_MAX;
use crate::trig::cos_spec;
use crate::trig::sin_spec;
use crate::trig::lemma_trig_spec_ok;

verus! {

/// Screen width in character cells.
pub const WIDTH: usize = 150;

/// Screen height in character cells.
pub const HEIGHT: usize = 80;

/// Number of screen cells.
pub const CELLS: usize = 12000;

/// Camera depth bias k = 10 in SCALE fixed point; keeps z + k positive for
/// the intended geometry.
pub const K_FX: i64 = SCALE * 10;

/// Denominators below this epsilon count as degenerate and the sample is
/// discarded instead of divided by a near-zero value.
pub const EPS_DEN: i64 = 1024;

/// Largest coordinate magnitude the per-sample plot accepts.
pub const PLOT_MAX: i64 = 0x1000_0000;

/// Largest scale factor the per-sample plot accepts.
pub const SIZE_MAX: i64 = 0x100_0000;

/// Largest sample coordinate render_frame accepts: three rotations later the
/// coordinates still fit PLOT_MAX.
pub const FRAME_MAX: i64 = 30000000;

/// The fixed light direction (0, 1, -1) in fixed point.
pub open spec fn light_model() -> PointModel {
    PointModel { x: 0, y: SCALE as int, z: -(SCALE as int) }
}

/// Inverse depth 1/(z + k) of a rotated point, in SCALE fixed point; larger
/// means nearer the viewer.
pub open spec fn depth_of(p: PointModel) -> int {
    4294967296int / (p.z + K_FX as int)
}

/// Fixed-point horizontal screen coordinate W/2 + x * 2 * size * depth.
pub open spec fn screen_x_fx(p: PointModel, size: int) -> int {
    75 * 65536 + div_scale(div_scale(p.x * 2 * size) * depth_of(p))
}

/// Fixed-point vertical screen coordinate (H/2 + 1) - y * size * depth.
pub open spec fn screen_y_fx(p: PointModel, size: int) -> int {
    41 * 65536 - div_scale(div_scale(p.y * size) * depth_of(p))
}

/// Where a rotated point lands: Some((row, col, depth)) when it projects
/// inside [0, WIDTH) x [0, HEIGHT), None when it is discarded (degenerate
/// denominator or out of bounds, the boundary value itself discarded).
pub open spec fn cell_of(p: PointModel, size: int) -> Option<(int, int, int)> {
    if p.z + (K_FX as int) < EPS_DEN as int {
        None
    } else {
        let sx = screen_x_fx(p, size);
        let sy = screen_y_fx(p, size);
        if 0 <= sx < 150 * 65536 && 0 <= sy < 80 * 65536 {
            Some((sy / 65536, sx / 65536, depth_of(p)))
        } else {
            None
        }
    }
}

/// Luminance level of a rotated normal: dot with the light, times 8.
pub open spec fn lum_level(n: PointModel) -> int {
    dot_model(n, light_model()) * 8
}

/// Index into the luminance ramp: floor(level) clamped to [0, 11].
pub open spec fn shade_index(l: int) -> int {
    if l <= 0 {
        0
    } else if l / 65536 < 11 {
        l / 65536
    } else {
        11
    }
}

/// The 12-entry luminance ramp, darkest to brightest.
pub open spec fn ramp_spec(i: int) -> char {
    if i == 0 {
        '.'
    } else if i == 1 {
        ','
    } else if i == 2 {
        '-'
    } else if i == 3 {
        '~'
    } else if i == 4 {
        ':'
    } else if i == 5 {
        ';'
    } else if i == 6 {
        '='
    } else if i == 7 {
        '!'
    } else if i == 8 {
        '*'
    } else if i == 9 {
        '#'
    } else if i == 10 {
        '$'
    } else {
        '@'
    }
}

/// Luminance character for a luminance level.
pub fn shade_char(l: i64) -> (ch: char)
    ensures
        ch == ramp_spec(shade_index(l as int)),
        ch != ' ',
{
    let idx: i64 = if l <= 0 {
        0
    } else {
        let q = ((l as u64) / 65536) as i64;
        if q < 11 {
            q
        } else {
            11
        }
    };
    if idx == 0 {
        '.'
    } else if idx == 1 {
        ','
    } else if idx == 2 {
        '-'
    } else if idx == 3 {
        '~'
    } else if idx == 4 {
        ':'
    } else if idx == 5 {
        ';'
    } else if idx == 6 {
        '='
    } else if idx == 7 {
        '!'
    } else if idx == 8 {
        '*'
    } else if idx == 9 {
        '#'
    } else if idx == 10 {
        '$'
    } else {
        '@'
    }
}

/// The character grid after plotting one rotated sample on (ch, dp).
pub open spec fn plot_chars(
    ch: Seq<char>,
    dp: Seq<int>,
    p: PointModel,
    n: PointModel,
    size: int,
) -> Seq<char> {
    match cell_of(p, size) {
        Some((row, col, d)) => if d > dp[row * 150 + col] {
            ch.update(row * 150 + col, ramp_spec(shade_index(lum_level(n))))
        } else {
            ch
        },
        None => ch,
    }
}

/// The depth grid after plotting one rotated sample on (ch, dp).
pub open spec fn plot_depth(
    ch: Seq<char>,
    dp: Seq<int>,
    p: PointModel,
    n: PointModel,
    size: int,
) -> Seq<int> {
    match cell_of(p, size) {
        Some((row, col, d)) => if d > dp[row * 150 + col] {
            dp.update(row * 150 + col, d)
        } else {
            dp
        },
        None => dp,
    }
}

/// The per-frame screen and depth buffers.
pub struct Screen {
    pub chars: Vec<char>,
    pub depth: Vec<i64>,
}

impl Screen {
    /// The depth grid as a sequence of unbounded integers.
    pub open spec fn depth_model(self) -> Seq<int> {
        self.depth@.map_values(|d: i64| d as int)
    }

    /// Well-formed buffers: full size, nonnegative depths, and a cell is
    /// blank exactly when nothing was drawn to it this frame.
    pub open spec fn wf(self) -> bool {
        &&& self.chars@.len() == 12000
        &&& self.depth@.len() == 12000
        &&& forall|i: int| 0 <= i < 12000 ==> #[trigger] self.depth@[i] >= 0
        &&& forall|i: int| 0 <= i < 12000 ==> ((#[trigger] self.chars@[i]) == ' ' <==> self.depth@[i] == 0)
    }

    /// All cells blank and all depths zero.
    pub open spec fn blank(self) -> bool {
        &&& self.wf()
        &&& forall|i: int| 0 <= i < 12000 ==> #[trigger] self.depth@[i] == 0
    }

    /// A fresh screen with every cell blank.
    pub fn new() -> (s: Screen)
        ensures
            s.blank(),
            s.wf(),
    {
        let mut chars: Vec<char> = Vec::new();
        let mut depth: Vec<i64> = Vec::new();
        let mut i: usize = 0;
        while i < 12000
            invariant
                i <= 12000,
                chars@.len() == i,
                depth@.len() == i,
                forall|j: int| 0 <= j < i ==> #[trigger] chars@[j] == ' ',
                forall|j: int| 0 <= j < i ==> #[trigger] depth@[j] == 0,
            decreases 12000 - i,
        {
            chars.push(' ');
            depth.push(0);
            i += 1;
        }
        Screen { chars, depth }
    }

    /// Reset every cell to blank and every depth to zero for the next frame.
    pub fn clear(&mut self)
        ensures
            final(self).blank(),
            final(self).wf(),
    {
        *self = Screen::new();
    }

    /// Plot one rotated sample: project it, apply the depth test, and on
    /// acceptance write its inverse depth and luminance character.
    pub fn plot_sample(&mut self, point: Point3d, normal: Point3d, size: i64)
        requires
            old(self).wf(),
            in_range(point, PLOT_MAX as int),
            in_range(normal, PLOT_MAX as int),
            0 <= size <= SIZE_MAX,
        ensures
            final(self).wf(),
            final(self).chars@ == plot_chars(
                old(self).chars@,
                old(self).depth_model(),
                point.model(),
                normal.model(),
                size as int,
            ),
            final(self).depth_model() == plot_depth(
                old(self).chars@,
                old(self).depth_model(),
                point.model(),
                normal.model(),
                size as int,
            ),
    {
        let den = point.z + K_FX;
        if den < EPS_DEN {
            return ;
        }
        let d = (4294967296u64 / (den as u64)) as i64;
        proof {
            assert(d == depth_of(point.model()));
            vstd::arithmetic::div_mod::lemma_div_is_ordered_by_denominator(
                4294967296,
                1024,
                den as int,
            );
            vstd::arithmetic::div_mod::lemma_div_is_ordered_by_denominator(
                4294967296,
                den as int,
                269090816,
            );
            assert(1 <= d <= 4194304);
            lemma_mul_bound(point.x as int * 2, size as int, 2 * PLOT_MAX as int, SIZE_MAX as int);
            lemma_mul_bound(point.y as int, size as int, PLOT_MAX as int, SIZE_MAX as int);
            lemma_div_scale_mono(point.x as int * 2 * (size as int), 2 * PLOT_MAX as int * (
            SIZE_MAX as int));
            lemma_div_scale_mono(-(2 * PLOT_MAX as int * (SIZE_MAX as int)), point.x as int * 2 * (
            size as int));
            lemma_div_scale_mono(point.y as int * (size as int), PLOT_MAX as int * (SIZE_MAX as int));
            lemma_div_scale_mono(-(PLOT_MAX as int * (SIZE_MAX as int)), point.y as int * (
            size as int));
            let xs = div_scale(point.x as int * 2 * (size as int));
            let ys = div_scale(point.y as int * (size as int));
            lemma_mul_bound(xs, d as int, 137438953472, 4194304);
            lemma_mul_bound(ys, d as int, 68719476736, 4194304);
            lemma_div_scale_mono(xs * (d as int), 137438953472int * 4194304);
            lemma_div_scale_mono(-(137438953472int * 4194304), xs * (d as int));
            lemma_div_scale_mono(ys * (d as int), 68719476736int * 4194304);
            lemma_div_scale_mono(-(68719476736int * 4194304), ys * (d as int));
        }
        let sx = 75 * SCALE + scale_down(scale_down(point.x * 2 * size) * d);
        let sy = 41 * SCALE - scale_down(scale_down(point.y * size) * d);
        if sx < 0 || sx >= 150 * SCALE || sy < 0 || sy >= 80 * SCALE {
            return ;
        }
        let row = ((sy as u64) / 65536) as usize;
        let col = ((sx as u64) / 65536) as usize;
        let idx = row * 150 + col;
        proof {
            assert(row < 80 && col < 150);
            assert(idx < 12000);
            assert(cell_of(point.model(), size as int) == Some(
                ((row as int), (col as int), (d as int)),
            ));
        }
        let stored = self.depth[idx];
        if d > stored {
            let light = Point3d::new(0, SCALE, -SCALE);
            proof {
                let sum = normal.x as int * 0 + normal.y as int * 65536 + normal.z as int * (
                -65536);
                lemma_mul_bound(normal.x as int, 0, PLOT_MAX as int, 0);
                lemma_mul_bound(normal.y as int, 65536, PLOT_MAX as int, 65536);
                lemma_mul_bound(normal.z as int, -65536, PLOT_MAX as int, 65536);
                lemma_div_scale_mono(sum, 2 * (PLOT_MAX as int) * 65536);
                lemma_div_scale_mono(-(2 * (PLOT_MAX as int) * 65536), sum);
                lemma_div_scale_exact(2 * (PLOT_MAX as int));
                lemma_div_scale_exact(-(2 * (PLOT_MAX as int)));
            }
            let l = normal.dot(light);
            let ch = shade_char(8 * l);
            self.depth.set(idx, d);
            self.chars.set(idx, ch);
            proof {
                assert(self.depth_model() =~= old(self).depth_model().update(idx as int, d as int));
            }
        }
    }
}

/// A point rotated by the current frame angles: Y first, then X, then Z.
pub open spec fn rotate_frame(p: PointModel, ax: int, ay: int, az: int) -> PointModel {
    rotate_model(
        RotationAxis::Z,
        cos_spec(az),
        sin_spec(az),
        rotate_model(
            RotationAxis::X,
            cos_spec(ax),
            sin_spec(ax),
            rotate_model(RotationAxis::Y, cos_spec(ay), sin_spec(ay), p),
        ),
    )
}

/// The character grid after rendering a whole sample list, in order.
pub open spec fn render_chars(
    ch: Seq<char>,
    dp: Seq<int>,
    samples: Seq<(Point3d, Point3d)>,
    ax: int,
    ay: int,
    az: int,
    size: int,
) -> Seq<char>
    decreases samples.len(),
{
    if samples.len() == 0 {
        ch
    } else {
        plot_chars(
            render_chars(ch, dp, samples.drop_last(), ax, ay, az, size),
            render_depth(ch, dp, samples.drop_last(), ax, ay, az, size),
            rotate_frame(samples.last().0.model(), ax, ay, az),
            rotate_frame(samples.last().1.model(), ax, ay, az),
            size,
        )
    }
}

/// The depth grid after rendering a whole sample list, in order.
pub open spec fn render_depth(
    ch: Seq<char>,
    dp: Seq<int>,
    samples: Seq<(Point3d, Point3d)>,
    ax: int,
    ay: int,
    az: int,
    size: int,
) -> Seq<int>
    decreases samples.len(),
{
    if samples.len() == 0 {
        dp
    } else {
        plot_depth(
            render_chars(ch, dp, samples.drop_last(), ax, ay, az, size),
            render_depth(ch, dp, samples.drop_last(), ax, ay, az, size),
            rotate_frame(samples.last().0.model(), ax, ay, az),
            rotate_frame(samples.last().1.model(), ax, ay, az),
            size,
        )
    }
}

/// Rotate one sample coordinate triple by the frame angles: Y, then X,
/// then Z, as the frame renderer applies them.
pub fn rotate_yxz(p: Point3d, ax: i64, ay: i64, az: i64) -> (r: Point3d)
    requires
        in_range(p, FRAME_MAX as int),
        -ANGLE_MAX <= ax <= ANGLE_MAX,
        -ANGLE_MAX <= ay <= ANGLE_MAX,
        -ANGLE_MAX <= az <= ANGLE_MAX,
    ensures
        r.model() == rotate_frame(p.model(), ax as int, ay as int, az as int),
        in_range(r, PLOT_MAX as int),
{
    let ry = Rotation::new(ay, RotationAxis::Y);
    let rx = Rotation::new(ax, RotationAxis::X);
    let rz = Rotation::new(az, RotationAxis::Z);
    proof {
        lemma_trig_spec_ok(ay as int);
    }
    let p_y = ry.apply(p);
    proof {
        lemma_rotate_in_range(
            RotationAxis::Y,
            cos_spec(ay as int),
            sin_spec(ay as int),
            p.model(),
            FRAME_MAX as int,
        );
        lemma_trig_spec_ok(ax as int);
        assert(in_range(p_y, 60117188));
    }
    let p_yx = rx.apply(p_y);
    proof {
        lemma_rotate_in_range(
            RotationAxis::X,
            cos_spec(ax as int),
            sin_spec(ax as int),
            p_y.model(),
            60117188,
        );
        lemma_trig_spec_ok(az as int);
        assert(in_range(p_yx, 120469288));
    }
    let p_yxz = rz.apply(p_yx);
    proof {
        lemma_rotate_in_range(
            RotationAxis::Z,
            cos_spec(az as int),
            sin_spec(az as int),
            p_yx.model(),
            120469288,
        );
    }
    p_yxz
}

/// Render one frame: rotate every sample by the current angles (Y, then X,
/// then Z), project, depth-test, and shade into the screen buffers.
pub fn render_frame(
    screen: &mut Screen,
    samples: &Vec<(Point3d, Point3d)>,
    ax: i64,
    ay: i64,
    az: i64,
    size: i64,
)
    requires
        old(screen).wf(),
        -ANGLE_MAX <= ax <= ANGLE_MAX,
        -ANGLE_MAX <= ay <= ANGLE_MAX,
        -ANGLE_MAX <= az <= ANGLE_MAX,
        0 <= size <= SIZE_MAX,
        forall|i: int|
            0 <= i < samples@.len() ==> in_range((#[trigger] samples@[i]).0, FRAME_MAX as int)
                && in_range(samples@[i].1, FRAME_MAX as int),
    ensures
        final(screen).wf(),
        final(screen).chars@ == render_chars(
            old(screen).chars@,
            old(screen).depth_model(),
            samples@,
            ax as int,
            ay as int,
            az as int,
            size as int,
        ),
        final(screen).depth_model() == render_depth(
            old(screen).chars@,
            old(screen).depth_model(),
            samples@,
            ax as int,
            ay as int,
            az as int,
            size as int,
        ),
{
    let mut i: usize = 0;
    proof {
        assert(samples@.subrange(0, 0) =~= Seq::<(Point3d, Point3d)>::empty());
    }
    while i < samples.len()
        invariant
            i <= samples@.len(),
            screen.wf(),
            -ANGLE_MAX <= ax <= ANGLE_MAX,
            -ANGLE_MAX <= ay <= ANGLE_MAX,
            -ANGLE_MAX <= az <= ANGLE_MAX,
            0 <= size <= SIZE_MAX,
            forall|j: int|
                0 <= j < samples@.len() ==> in_range((#[trigger] samples@[j]).0, FRAME_MAX as int)
                    && in_range(samples@[j].1, FRAME_MAX as int),
            screen.chars@ == render_chars(
                old(screen).chars@,
                old(screen).depth_model(),
                samples@.subrange(0, i as int),
                ax as int,
                ay as int,
                az as int,
                size as int,
            ),
            screen.depth_model() == render_depth(
                old(screen).chars@,
                old(screen).depth_model(),
                samples@.subrange(0, i as int),
                ax as int,
                ay as int,
                az as int,
                size as int,
            ),
        decreases samples@.len() - i,
    {
        let (p, n) = samples[i];
        let p1 = rotate_yxz(p, ax, ay, az);
        let n1 = rotate_yxz(n, ax, ay, az);
        screen.plot_sample(p1, n1, size);
        proof {
            assert(samples@.subrange(0, i + 1 as int).drop_last() =~= samples@.subrange(
                0,
                i as int,
            ));
            assert(samples@.subrange(0, i + 1 as int).last() == samples@[i as int]);
        }
        i += 1;
    }
    proof {
        assert(samples@.subrange(0, samples@.len() as int) =~= samples@);
    }
}

/// Perspective projection helper: maps (x, y, z) to
/// (x/(distance - z), y/(distance - z), z); the caller must keep the
/// denominator nonzero.
pub fn project(point: Point3d, distance: i64) -> (r: Point3d)
    requires
        in_range(point, PLOT_MAX as int),
        -PLOT_MAX <= distance <= PLOT_MAX,
        distance != point.z,
    ensures
        r.x == sdiv(point.x as int * 65536, distance - point.z),
        r.y == sdiv(point.y as int * 65536, distance - point.z),
        r.z == point.z,
{
    let den = distance - point.z;
    if den > 0 {
        Point3d::new(div_by(point.x * 65536, den), div_by(point.y * 65536, den), point.z)
    } else {
        Point3d::new(div_by(-(point.x * 65536), -den), div_by(-(point.y * 65536), -den), point.z)
    }
}

/// Truncating division for any nonzero divisor.
pub open spec fn sdiv(a: int, b: int) -> int
    recommends
        b != 0,
{
    if b > 0 {
        div_trunc(a, b)
    } else {
        div_trunc(-a, -b)
    }
}

/// The frame scale factor (WIDTH * k) / (8 * (inner_radius + outer_radius)),
/// in SCALE fixed point.
pub fn frame_size(outer_r: i64, inner_r: i64) -> (size: i64)
    requires
        0 < inner_r,
        0 < outer_r,
        SCALE <= inner_r + outer_r <= 0x8000_0000,
    ensures
        size == 6442450944000int / (8 * (inner_r as int + outer_r as int)),
        0 <= size <= SIZE_MAX,
{
    proof {
        vstd::arithmetic::div_mod::lemma_div_is_ordered_by_denominator(
            6442450944000,
            524288,
            8 * (inner_r as int + outer_r as int),
        );
    }
    (6442450944000u64 / ((8 * (inner_r + outer_r)) as u64)) as i64
}

/// Serialize the screen row-major, one newline character after each row.
pub fn render_text(screen: &Screen) -> (out: Vec<char>)
    requires
        screen.wf(),
    ensures
        out@.len() == 12080,
        forall|i: int|
            0 <= i < 12080 ==> #[trigger] out@[i] == (if i % 151 == 150 {
                '\n'
            } else {
                screen.chars@[(i / 151) * 150 + (i % 151)]
            }),
{
    let mut out: Vec<char> = Vec::new();
    let mut r: usize = 0;
    while r < 80
        invariant
            r <= 80,
            screen.wf(),
            out@.len() == r * 151,
            forall|i: int|
                0 <= i < out@.len() ==> #[trigger] out@[i] == (if i % 151 == 150 {
                    '\n'
                } else {
                    screen.chars@[(i / 151) * 150 + (i % 151)]
                }),
        decreases 80 - r,
    {
        let mut c: usize = 0;
        while c < 150
            invariant
                r < 80,
                c <= 150,
                screen.wf(),
                out@.len() == r * 151 + c,
                forall|i: int|
                    0 <= i < out@.len() ==> #[trigger] out@[i] == (if i % 151 == 150 {
                        '\n'
                    } else {
                        screen.chars@[(i / 151) * 150 + (i % 151)]
                    }),
            decreases 150 - c,
        {
            out.push(screen.chars[r * 150 + c]);
            proof {
                let i0 = (r * 151 + c) as int;
                assert(i0 % 151 == c as int && i0 / 151 == r as int);
            }
            c += 1;
        }
        out.push('\n');
        proof {
            let i0 = (r * 151 + 150) as int;
            assert(i0 % 151 == 150 && i0 / 151 == r as int);
        }
        r += 1;
    }
    out
}

} // verus!
