use vstd::prelude::*;
use std::sync::Arc;
use crate::fixed::{fmul, sok, tdiv, COORD_LIMIT, FX_ONE};
use crate::geometry::{max2, min2, Aabb, HitRecord};
use crate::ray::{at_spec, nok, rok, Ray};
use crate::vec3::{Vec3d, UV};

verus! {

/// Largest magnitude a mesh vertex coordinate may have, so that edge cross
/// products stay within the coordinate range.
pub const MESH_LIMIT: i64 = 0x40_0000;

/// A pool of vertices with optional per-vertex normals and surface
/// coordinates, an index buffer of triangles (three indices each), and one
/// shared material.
pub struct TriangleMesh {
    pub vertices: Vec<Vec3d>,
    pub normals: Vec<Vec3d>,
    pub tex_coords: Vec<UV>,
    pub indices: Vec<u32>,
    pub material: u32,
}

/// A well-formed mesh: the index buffer triples up and stays in bounds, the
/// optional pools are empty or parallel to the vertex pool, and every pooled
/// value lies in the ranges the solvers accept.
pub open spec fn mesh_wf(m: TriangleMesh) -> bool {
    &&& m.indices@.len() % 3 == 0
    &&& forall|i: int| 0 <= i < m.indices@.len() ==> (#[trigger] m.indices@[i] as int)
        < m.vertices@.len()
    &&& (m.normals@.len() == 0 || m.normals@.len() == m.vertices@.len())
    &&& (m.tex_coords@.len() == 0 || m.tex_coords@.len() == m.vertices@.len())
    &&& forall|i: int| 0 <= i < m.vertices@.len() ==> -MESH_LIMIT <= (
    #[trigger] m.vertices@[i]).x <= MESH_LIMIT && -MESH_LIMIT <= m.vertices@[i].y <= MESH_LIMIT
        && -MESH_LIMIT <= m.vertices@[i].z <= MESH_LIMIT
    &&& forall|i: int| 0 <= i < m.normals@.len() ==> -MESH_LIMIT <= (
    #[trigger] m.normals@[i]).x <= MESH_LIMIT && -MESH_LIMIT <= m.normals@[i].y <= MESH_LIMIT
        && -MESH_LIMIT <= m.normals@[i].z <= MESH_LIMIT
    &&& forall|i: int| 0 <= i < m.tex_coords@.len() ==> -COORD_LIMIT <= (
    #[trigger] m.tex_coords@[i]).u <= COORD_LIMIT && -COORD_LIMIT <= m.tex_coords@[i].v
        <= COORD_LIMIT
}

impl TriangleMesh {
    /// Validate pools and index buffer; `Some` exactly on a well-formed mesh.
    pub fn try_new(
        vertices: Vec<Vec3d>,
        normals: Vec<Vec3d>,
        tex_coords: Vec<UV>,
        indices: Vec<u32>,
        material: u32,
    ) -> (res: Option<TriangleMesh>)
        ensures
            res matches Some(m) ==> mesh_wf(m) && m.vertices@ == vertices@ && m.normals@
                == normals@ && m.tex_coords@ == tex_coords@ && m.indices@ == indices@
                && m.material == material,
            res is None ==> !mesh_wf(
                TriangleMesh { vertices, normals, tex_coords, indices, material },
            ),
    {
        if indices.len() % 3 != 0 {
            return None;
        }
        if !(normals.len() == 0 || normals.len() == vertices.len()) {
            return None;
        }
        if !(tex_coords.len() == 0 || tex_coords.len() == vertices.len()) {
            return None;
        }
        let mut i: usize = 0;
        while i < indices.len()
            invariant
                0 <= i <= indices.len(),
                forall|j: int| 0 <= j < i ==> (#[trigger] indices@[j] as int) < vertices@.len(),
            decreases indices.len() - i,
        {
            if indices[i] as usize >= vertices.len() {
                proof {
                    let m = TriangleMesh { vertices, normals, tex_coords, indices, material };
                    assert(!((m.indices@[i as int] as int) < m.vertices@.len()));
                }
                return None;
            }
            i = i + 1;
        }
        let mut i: usize = 0;
        while i < vertices.len()
            invariant
                0 <= i <= vertices.len(),
                forall|j: int| 0 <= j < i ==> -MESH_LIMIT <= (#[trigger] vertices@[j]).x
                    <= MESH_LIMIT && -MESH_LIMIT <= vertices@[j].y <= MESH_LIMIT && -MESH_LIMIT
                    <= vertices@[j].z <= MESH_LIMIT,
            decreases vertices.len() - i,
        {
            let v = vertices[i];
            if v.x < -MESH_LIMIT || v.x > MESH_LIMIT || v.y < -MESH_LIMIT || v.y > MESH_LIMIT
                || v.z < -MESH_LIMIT || v.z > MESH_LIMIT {
                proof {
                    let m = TriangleMesh { vertices, normals, tex_coords, indices, material };
                    assert(m.vertices@[i as int] == v);
                }
                return None;
            }
            i = i + 1;
        }
        let mut i: usize = 0;
        while i < normals.len()
            invariant
                0 <= i <= normals.len(),
                forall|j: int| 0 <= j < i ==> -MESH_LIMIT <= (#[trigger] normals@[j]).x
                    <= MESH_LIMIT && -MESH_LIMIT <= normals@[j].y <= MESH_LIMIT && -MESH_LIMIT
                    <= normals@[j].z <= MESH_LIMIT,
            decreases normals.len() - i,
        {
            let v = normals[i];
            if v.x < -MESH_LIMIT || v.x > MESH_LIMIT || v.y < -MESH_LIMIT || v.y > MESH_LIMIT
                || v.z < -MESH_LIMIT || v.z > MESH_LIMIT {
                proof {
                    let m = TriangleMesh { vertices, normals, tex_coords, indices, material };
                    assert(m.normals@[i as int] == v);
                }
                return None;
            }
            i = i + 1;
        }
        let mut i: usize = 0;
        while i < tex_coords.len()
            invariant
                0 <= i <= tex_coords.len(),
                forall|j: int| 0 <= j < i ==> -COORD_LIMIT <= (#[trigger] tex_coords@[j]).u
                    <= COORD_LIMIT && -COORD_LIMIT <= tex_coords@[j].v <= COORD_LIMIT,
            decreases tex_coords.len() - i,
        {
            let v = tex_coords[i];
            if v.u < -COORD_LIMIT || v.u > COORD_LIMIT || v.v < -COORD_LIMIT || v.v > COORD_LIMIT {
                proof {
                    let m = TriangleMesh { vertices, normals, tex_coords, indices, material };
                    assert(m.tex_coords@[i as int] == v);
                }
                return None;
            }
            i = i + 1;
        }
        Some(TriangleMesh { vertices, normals, tex_coords, indices, material })
    }

    /// One lightweight view per index triple of this mesh.
    pub fn triangles(self: Arc<TriangleMesh>) -> (res: Vec<Triangle>)
        requires
            mesh_wf(*self),
        ensures
            res@.len() * 3 == self.indices@.len(),
            forall|k: int| 0 <= k < res@.len() ==> twf(#[trigger] res@[k]) && res@[k].mesh == *self
                && res@[k].idx == 3 * k,
    {
        let mut res: Vec<Triangle> = Vec::new();
        let len = self.indices.len();
        let n = len / 3;
        proof {
            vstd::arithmetic::div_mod::lemma_fundamental_div_mod(len as int, 3);
        }
        let mut k: usize = 0;
        while k < n
            invariant
                0 <= k <= n,
                n * 3 == self.indices@.len(),
                self.indices@.len() <= usize::MAX,
                mesh_wf(*self),
                res@.len() == k,
                forall|j: int| 0 <= j < k ==> twf(#[trigger] res@[j]) && res@[j].mesh == *self
                    && res@[j].idx == 3 * j,
            decreases n - k,
        {
            let t = Triangle::new(crate::shared::arc_clone(&self), 3 * k);
            res.push(t);
            k = k + 1;
        }
        res
    }
}

/// The three vertices of the triangle at `idx`.
pub open spec fn tri_v(m: TriangleMesh, idx: int, k: int) -> Vec3d {
    m.vertices@[m.indices@[idx + k] as int]
}

/// The tight box around the three vertices.
pub open spec fn tri_bbox_spec(m: TriangleMesh, idx: int) -> Aabb {
    let v0 = tri_v(m, idx, 0);
    let v1 = tri_v(m, idx, 1);
    let v2 = tri_v(m, idx, 2);
    Aabb {
        min: Vec3d {
            x: min2(v0.x, min2(v1.x, v2.x)),
            y: min2(v0.y, min2(v1.y, v2.y)),
            z: min2(v0.z, min2(v1.z, v2.z)),
        },
        max: Vec3d {
            x: max2(v0.x, max2(v1.x, v2.x)),
            y: max2(v0.y, max2(v1.y, v2.y)),
            z: max2(v0.z, max2(v1.z, v2.z)),
        },
    }
}

/// The normalized cross product of the edge vectors, or the upward unit
/// vector when the face is degenerate.
pub open spec fn tri_face_normal_spec(m: TriangleMesh, idx: int) -> Vec3d {
    let v0 = tri_v(m, idx, 0);
    let v1 = tri_v(m, idx, 1);
    let v2 = tri_v(m, idx, 2);
    let e1 = Vec3d { x: (v1.x - v0.x) as i64, y: (v1.y - v0.y) as i64, z: (v1.z - v0.z) as i64 };
    let e2 = Vec3d { x: (v2.x - v0.x) as i64, y: (v2.y - v0.y) as i64, z: (v2.z - v0.z) as i64 };
    let c = crate::vec3::cross3(e1, e2);
    let cv = Vec3d { x: c.0 as i64, y: c.1 as i64, z: c.2 as i64 };
    if crate::vec3::dot3(cv, cv) < crate::vec3::VEC_EPS_SQ {
        Vec3d { x: 0, y: FX_ONE as i64, z: 0 }
    } else {
        Vec3d::normalize_spec(cv)
    }
}

/// A view of one triangle of a shared mesh, with its box and face normal
/// cached at construction.
pub struct Triangle {
    pub mesh: Arc<TriangleMesh>,
    pub idx: usize,
    pub bbox: Aabb,
    pub face_unit_normal: Vec3d,
}

/// A well-formed triangle view: the mesh is well formed, the index triple
/// lies in the buffer, and the caches agree with the mesh.
pub open spec fn twf(t: Triangle) -> bool {
    &&& mesh_wf(*t.mesh)
    &&& t.idx + 2 < t.mesh.indices@.len()
    &&& t.bbox == tri_bbox_spec(*t.mesh, t.idx as int)
    &&& t.face_unit_normal == tri_face_normal_spec(*t.mesh, t.idx as int)
    &&& nok(t.face_unit_normal)
}

impl Triangle {
    #[verifier::rlimit(60)]
    pub fn new(mesh: Arc<TriangleMesh>, idx: usize) -> (t: Triangle)
        requires
            mesh_wf(*mesh),
            idx + 2 < mesh.indices@.len(),
        ensures
            twf(t),
            t.mesh == *mesh,
            t.idx == idx,
    {
        let len = mesh.indices.len();
        let i0 = mesh.indices[idx] as usize;
        let i1 = mesh.indices[idx + 1] as usize;
        let i2 = mesh.indices[idx + 2] as usize;
        let v0 = mesh.vertices[i0];
        let v1 = mesh.vertices[i1];
        let v2 = mesh.vertices[i2];
        let bbox = Aabb {
            min: Vec3d {
                x: min2_exec(v0.x, min2_exec(v1.x, v2.x)),
                y: min2_exec(v0.y, min2_exec(v1.y, v2.y)),
                z: min2_exec(v0.z, min2_exec(v1.z, v2.z)),
            },
            max: Vec3d {
                x: max2_exec(v0.x, max2_exec(v1.x, v2.x)),
                y: max2_exec(v0.y, max2_exec(v1.y, v2.y)),
                z: max2_exec(v0.z, max2_exec(v1.z, v2.z)),
            },
        };
        proof {
            assert(v0 == mesh.vertices@[i0 as int] && v1 == mesh.vertices@[i1 as int] && v2
                == mesh.vertices@[i2 as int]);
        }
        let e1 = v1.sub(&v0);
        let e2 = v2.sub(&v0);
        proof {
            lemma_edge_cross_bound(e1, e2);
        }
        let c = e1.cross(&e2);
        let face_unit_normal = if c.near_zero() {
            Vec3d { x: 0, y: FX_ONE, z: 0 }
        } else {
            c.normalize()
        };
        Triangle { mesh, idx, bbox, face_unit_normal }
    }

    pub fn v0(&self) -> (v: Vec3d)
        requires
            twf(*self),
        ensures
            v == tri_v(*self.mesh, self.idx as int, 0),
    {
        self.mesh.vertices[self.mesh.indices[self.idx] as usize]
    }

    pub fn v1(&self) -> (v: Vec3d)
        requires
            twf(*self),
        ensures
            v == tri_v(*self.mesh, self.idx as int, 1),
    {
        let len = self.mesh.indices.len();
        self.mesh.vertices[self.mesh.indices[self.idx + 1] as usize]
    }

    pub fn v2(&self) -> (v: Vec3d)
        requires
            twf(*self),
        ensures
            v == tri_v(*self.mesh, self.idx as int, 2),
    {
        let len = self.mesh.indices.len();
        self.mesh.vertices[self.mesh.indices[self.idx + 2] as usize]
    }

    pub fn material(&self) -> (m: u32)
        ensures
            m == self.mesh.material,
    {
        self.mesh.material
    }

    /// The solver: edge vectors from vertex zero, scaled determinant, and
    /// barycentric bounds, all over exact integers with one rounding per
    /// published ratio. `Some((t, b1, b2))` means the ray meets the plane at
    /// parameter `t`, at the point `(1 - b1 - b2) v0 + b1 v1 + b2 v2`.
    pub fn intersect(&self, ray: &Ray, t_min: i64, t_max: i64) -> (res: Option<(i64, i64, i64)>)
        requires
            twf(*self),
            rok(*ray),
            sok(t_min),
            sok(t_max),
        ensures
            lift3(res) == tri_intersect_spec(*self.mesh, self.idx as int, *ray, t_min, t_max),
            res matches Some(w) ==> t_min <= w.0 <= t_max && 0 <= w.1 <= FX_ONE && 0 <= w.2
                <= FX_ONE && w.1 + w.2 <= FX_ONE,
    {
        let v0 = self.v0();
        let v1 = self.v1();
        let v2 = self.v2();
        let e1x: i128 = (v1.x as i128) - (v0.x as i128);
        let e1y: i128 = (v1.y as i128) - (v0.y as i128);
        let e1z: i128 = (v1.z as i128) - (v0.z as i128);
        let e2x: i128 = (v2.x as i128) - (v0.x as i128);
        let e2y: i128 = (v2.y as i128) - (v0.y as i128);
        let e2z: i128 = (v2.z as i128) - (v0.z as i128);
        let sx: i128 = (ray.origin.x as i128) - (v0.x as i128);
        let sy: i128 = (ray.origin.y as i128) - (v0.y as i128);
        let sz: i128 = (ray.origin.z as i128) - (v0.z as i128);
        let dx: i128 = ray.direction.x as i128;
        let dy: i128 = ray.direction.y as i128;
        let dz: i128 = ray.direction.z as i128;
        // s1 = direction x e2, s2 = s x e1 (raw products, no rounding).
        let s1x = mul_sub128(dy, e2z, dz, e2y);
        let s1y = mul_sub128(dz, e2x, dx, e2z);
        let s1z = mul_sub128(dx, e2y, dy, e2x);
        let s2x = mul_sub128(sy, e1z, sz, e1y);
        let s2y = mul_sub128(sz, e1x, sx, e1z);
        let s2z = mul_sub128(sx, e1y, sy, e1x);
        let div = dot128(s1x, s1y, s1z, e1x, e1y, e1z);
        if div == 0 {
            return None;
        }
        let tnum = scale128(dot128(s2x, s2y, s2z, e2x, e2y, e2z));
        let t = div_i128(tnum, div);
        if t < t_min as i128 || t > t_max as i128 {
            return None;
        }
        let b1num = scale128(dot128(s1x, s1y, s1z, sx, sy, sz));
        let b1 = div_i128(b1num, div);
        if b1 < 0 || b1 > FX_ONE as i128 {
            return None;
        }
        let b2num = scale128(dot128(s2x, s2y, s2z, dx, dy, dz));
        let b2 = div_i128(b2num, div);
        if b2 < 0 || b1 + b2 > FX_ONE as i128 {
            return None;
        }
                Some((t as i64, b1 as i64, b2 as i64))
    }

    /// The interpolated unit normal when the mesh has a normal pool, else
    /// the cached face normal.
    pub fn unit_normal_at(&self, b1: i64, b2: i64) -> (n: Vec3d)
        requires
            twf(*self),
            0 <= b1 <= FX_ONE,
            0 <= b2 <= FX_ONE,
            b1 + b2 <= FX_ONE,
        ensures
            n == tri_normal_at_spec(*self.mesh, self.idx as int, b1 as int, b2 as int,
                self.face_unit_normal),
            nok(n),
    {
        if self.mesh.normals.len() == 0 {
            self.face_unit_normal
        } else {
            let len = self.mesh.indices.len();
            let i0 = self.mesh.indices[self.idx] as usize;
            let i1 = self.mesh.indices[self.idx + 1] as usize;
            let i2 = self.mesh.indices[self.idx + 2] as usize;
            let n0 = self.mesh.normals[i0];
            let n1 = self.mesh.normals[i1];
            let n2 = self.mesh.normals[i2];
            let b0 = FX_ONE - b1 - b2;
            proof {
                lemma_bary_term(n0.x as int, b0 as int, MESH_LIMIT as int);
                lemma_bary_term(n0.y as int, b0 as int, MESH_LIMIT as int);
                lemma_bary_term(n0.z as int, b0 as int, MESH_LIMIT as int);
                lemma_bary_term(n1.x as int, b1 as int, MESH_LIMIT as int);
                lemma_bary_term(n1.y as int, b1 as int, MESH_LIMIT as int);
                lemma_bary_term(n1.z as int, b1 as int, MESH_LIMIT as int);
                lemma_bary_term(n2.x as int, b2 as int, MESH_LIMIT as int);
                lemma_bary_term(n2.y as int, b2 as int, MESH_LIMIT as int);
                lemma_bary_term(n2.z as int, b2 as int, MESH_LIMIT as int);
            }
            let blend = n0.scale(b0).add(&n1.scale(b1)).add(&n2.scale(b2));
            blend.normalize()
        }
    }

    /// The interpolated surface coordinate when the mesh has a pool, else
    /// the center of the unit square.
    pub fn uv_at(&self, b1: i64, b2: i64) -> (uv: UV)
        requires
            twf(*self),
            0 <= b1 <= FX_ONE,
            0 <= b2 <= FX_ONE,
            b1 + b2 <= FX_ONE,
        ensures
            uv == tri_uv_at_spec(*self.mesh, self.idx as int, b1 as int, b2 as int),
            -3 * COORD_LIMIT <= uv.u <= 3 * COORD_LIMIT,
            -3 * COORD_LIMIT <= uv.v <= 3 * COORD_LIMIT,
    {
        if self.mesh.tex_coords.len() == 0 {
            UV { u: FX_ONE / 2, v: FX_ONE / 2 }
        } else {
            let len = self.mesh.indices.len();
            let i0 = self.mesh.indices[self.idx] as usize;
            let i1 = self.mesh.indices[self.idx + 1] as usize;
            let i2 = self.mesh.indices[self.idx + 2] as usize;
            let t0 = self.mesh.tex_coords[i0];
            let t1 = self.mesh.tex_coords[i1];
            let t2 = self.mesh.tex_coords[i2];
            let b0 = FX_ONE - b1 - b2;
            proof {
                lemma_bary_term(t0.u as int, b0 as int, COORD_LIMIT as int);
                lemma_bary_term(t0.v as int, b0 as int, COORD_LIMIT as int);
                lemma_bary_term(t1.u as int, b1 as int, COORD_LIMIT as int);
                lemma_bary_term(t1.v as int, b1 as int, COORD_LIMIT as int);
                lemma_bary_term(t2.u as int, b2 as int, COORD_LIMIT as int);
                lemma_bary_term(t2.v as int, b2 as int, COORD_LIMIT as int);
            }
            UV {
                u: crate::fixed::fx_mul(t0.u, b0) + crate::fixed::fx_mul(t1.u, b1)
                    + crate::fixed::fx_mul(t2.u, b2),
                v: crate::fixed::fx_mul(t0.v, b0) + crate::fixed::fx_mul(t1.v, b1)
                    + crate::fixed::fx_mul(t2.v, b2),
            }
        }
    }

    pub fn hit(&self, ray: &Ray, t_min: i64, t_max: i64) -> (res: Option<HitRecord>)
        requires
            twf(*self),
            rok(*ray),
            sok(t_min),
            sok(t_max),
        ensures
            res == triangle_hit_spec(*self.mesh, self.idx as int, self.face_unit_normal, *ray,
                t_min, t_max),
            res matches Some(h) ==> crate::geometry::hrok(h) && h.material == self.mesh.material,
    {
        match self.intersect(ray, t_min, t_max) {
            None => None,
            Some((t, b1, b2)) => {
                let p = ray.at(t);
                Some(
                    HitRecord {
                        point: p,
                        unit_normal: self.unit_normal_at(b1, b2),
                        hit_t: t,
                        material: self.material(),
                        mat_uv: self.uv_at(b1, b2),
                    },
                )
            },
        }
    }

    pub fn bounding_box(&self) -> (b: Aabb)
        ensures
            b == self.bbox,
    {
        self.bbox
    }
}

/// Truncating division of two 128-bit values.
fn div_i128(a: i128, b: i128) -> (r: i128)
    requires
        b != 0,
        b != i128::MIN,
        -0x80_0000_0000_0000_0000_0000_0000_0000 <= a <= 0x80_0000_0000_0000_0000_0000_0000_0000,
    ensures
        r == tdiv(a as int, b as int),
        -0x80_0000_0000_0000_0000_0000_0000_0000 <= r <= 0x80_0000_0000_0000_0000_0000_0000_0000,
{
    proof {
        crate::fixed::lemma_tdiv_bound(a as int, if b > 0 { b as int } else { -(b as int) },
            0x80_0000_0000_0000_0000_0000_0000_0000);
    }
    if b >= 0 {
        if a >= 0 {
            a / b
        } else {
            -((-a) / b)
        }
    } else {
        if a >= 0 {
            -(a / (-b))
        } else {
            (-a) / (-b)
        }
    }
}

/// `a*b - c*d` over factors a few dozen bits wide.
fn mul_sub128(a: i128, b: i128, c: i128, d: i128) -> (r: i128)
    requires
        -0x2_0000_0000 <= a <= 0x2_0000_0000,
        -0x2_0000_0000 <= b <= 0x2_0000_0000,
        -0x2_0000_0000 <= c <= 0x2_0000_0000,
        -0x2_0000_0000 <= d <= 0x2_0000_0000,
    ensures
        r == a * b - c * d,
        -0x8_0000_0000_0000_0000 <= r <= 0x8_0000_0000_0000_0000,
{
    proof {
        crate::fixed::lemma_mul_bound(a as int, b as int, 0x2_0000_0000, 0x2_0000_0000);
        crate::fixed::lemma_mul_bound(c as int, d as int, 0x2_0000_0000, 0x2_0000_0000);
    }
    a * b - c * d
}

/// The dot product of a wide vector with a narrow one, exact.
fn dot128(ax: i128, ay: i128, az: i128, bx: i128, by: i128, bz: i128) -> (r: i128)
    requires
        -0x8_0000_0000_0000_0000 <= ax <= 0x8_0000_0000_0000_0000,
        -0x8_0000_0000_0000_0000 <= ay <= 0x8_0000_0000_0000_0000,
        -0x8_0000_0000_0000_0000 <= az <= 0x8_0000_0000_0000_0000,
        -0x2_0000_0000 <= bx <= 0x2_0000_0000,
        -0x2_0000_0000 <= by <= 0x2_0000_0000,
        -0x2_0000_0000 <= bz <= 0x2_0000_0000,
    ensures
        r == ax * bx + ay * by + az * bz,
        -0x60_0000_0000_0000_0000_0000_0000 <= r <= 0x60_0000_0000_0000_0000_0000_0000,
{
    proof {
        crate::fixed::lemma_mul_bound(ax as int, bx as int, 0x8_0000_0000_0000_0000,
            0x2_0000_0000);
        crate::fixed::lemma_mul_bound(ay as int, by as int, 0x8_0000_0000_0000_0000,
            0x2_0000_0000);
        crate::fixed::lemma_mul_bound(az as int, bz as int, 0x8_0000_0000_0000_0000,
            0x2_0000_0000);
    }
    ax * bx + ay * by + az * bz
}

/// Multiplication by the scale, exact.
fn scale128(x: i128) -> (r: i128)
    requires
        -0x60_0000_0000_0000_0000_0000_0000 <= x <= 0x60_0000_0000_0000_0000_0000_0000,
    ensures
        r == x * (FX_ONE as int),
        -0x80_0000_0000_0000_0000_0000_0000_0000 <= r <= 0x80_0000_0000_0000_0000_0000_0000_0000,
{
    proof {
        crate::fixed::lemma_mul_bound(x as int, FX_ONE as int, 0x60_0000_0000_0000_0000_0000_0000,
            65536);
    }
    x * (FX_ONE as i128)
}

/// The cross product of two edge vectors of a mesh triangle stays within
/// the coordinate range.
proof fn lemma_edge_cross_bound(e1: Vec3d, e2: Vec3d)
    requires
        -2 * MESH_LIMIT <= e1.x <= 2 * MESH_LIMIT,
        -2 * MESH_LIMIT <= e1.y <= 2 * MESH_LIMIT,
        -2 * MESH_LIMIT <= e1.z <= 2 * MESH_LIMIT,
        -2 * MESH_LIMIT <= e2.x <= 2 * MESH_LIMIT,
        -2 * MESH_LIMIT <= e2.y <= 2 * MESH_LIMIT,
        -2 * MESH_LIMIT <= e2.z <= 2 * MESH_LIMIT,
    ensures
        -COORD_LIMIT <= crate::vec3::cross3(e1, e2).0 <= COORD_LIMIT,
        -COORD_LIMIT <= crate::vec3::cross3(e1, e2).1 <= COORD_LIMIT,
        -COORD_LIMIT <= crate::vec3::cross3(e1, e2).2 <= COORD_LIMIT,
{
    lemma_cross_part_bound(e1.y as int, e2.z as int, e1.z as int, e2.y as int);
    lemma_cross_part_bound(e1.z as int, e2.x as int, e1.x as int, e2.z as int);
    lemma_cross_part_bound(e1.x as int, e2.y as int, e1.y as int, e2.x as int);
}

/// One component of such a cross product is bounded.
proof fn lemma_cross_part_bound(a: int, b: int, c: int, d: int)
    requires
        -0x80_0000 <= a <= 0x80_0000,
        -0x80_0000 <= b <= 0x80_0000,
        -0x80_0000 <= c <= 0x80_0000,
        -0x80_0000 <= d <= 0x80_0000,
    ensures
        -COORD_LIMIT <= tdiv(a * b - c * d, FX_ONE as int) <= COORD_LIMIT,
{
    crate::fixed::lemma_mul_bound(a, b, 0x80_0000, 0x80_0000);
    crate::fixed::lemma_mul_bound(c, d, 0x80_0000, 0x80_0000);
    crate::fixed::lemma_tdiv_bound(a * b - c * d, FX_ONE as int, 0x8000_0000_0000);
    assert(tdiv(0x8000_0000_0000, FX_ONE as int) <= COORD_LIMIT as int);
}

/// A barycentric weight in the unit range cannot grow a blended term beyond
/// its own bound.
proof fn lemma_bary_term(a: int, b: int, lim: int)
    requires
        -lim <= a <= lim,
        0 <= b <= FX_ONE as int,
        0 <= lim,
    ensures
        -lim <= fmul(a, b) <= lim,
{
    crate::fixed::lemma_fmul_bound(a, b, lim, FX_ONE as int);
    crate::fixed::lemma_tdiv_exact(lim, FX_ONE as int);
}

/// The exec solver state as spec values.
pub open spec fn lift3(res: Option<(i64, i64, i64)>) -> Option<(int, int, int)> {
    match res {
        None => None,
        Some(w) => Some((w.0 as int, w.1 as int, w.2 as int)),
    }
}

/// The raw (unrounded) scalar triple products of the solver.
pub open spec fn tri_terms(m: TriangleMesh, idx: int, r: Ray) -> (int, int, int, int) {
    let v0 = tri_v(m, idx, 0);
    let v1 = tri_v(m, idx, 1);
    let v2 = tri_v(m, idx, 2);
    let e1 = ((v1.x - v0.x), (v1.y - v0.y), (v1.z - v0.z));
    let e2 = ((v2.x - v0.x), (v2.y - v0.y), (v2.z - v0.z));
    let s = ((r.origin.x - v0.x), (r.origin.y - v0.y), (r.origin.z - v0.z));
    let d = (r.direction.x as int, r.direction.y as int, r.direction.z as int);
    let s1 = (d.1 * e2.2 - d.2 * e2.1, d.2 * e2.0 - d.0 * e2.2, d.0 * e2.1 - d.1 * e2.0);
    let s2 = (s.1 * e1.2 - s.2 * e1.1, s.2 * e1.0 - s.0 * e1.2, s.0 * e1.1 - s.1 * e1.0);
    let div = s1.0 * e1.0 + s1.1 * e1.1 + s1.2 * e1.2;
    let tn = s2.0 * e2.0 + s2.1 * e2.1 + s2.2 * e2.2;
    let b1n = s1.0 * s.0 + s1.1 * s.1 + s1.2 * s.2;
    let b2n = s2.0 * d.0 + s2.1 * d.1 + s2.2 * d.2;
    (div, tn, b1n, b2n)
}

/// The solver: scaled determinant, parameter and barycentric ratios, and the
/// window and simplex checks in order.
pub open spec fn tri_intersect_spec(m: TriangleMesh, idx: int, r: Ray, t_min: i64, t_max: i64)
    -> Option<(int, int, int)> {
    let w = tri_terms(m, idx, r);
    if w.0 == 0 {
        None
    } else {
        let t = tdiv(w.1 * (FX_ONE as int), w.0);
        if t < t_min || t > t_max {
            None
        } else {
            let b1 = tdiv(w.2 * (FX_ONE as int), w.0);
            if b1 < 0 || b1 > FX_ONE {
                None
            } else {
                let b2 = tdiv(w.3 * (FX_ONE as int), w.0);
                if b2 < 0 || b1 + b2 > FX_ONE {
                    None
                } else {
                    Some((t, b1, b2))
                }
            }
        }
    }
}

/// The interpolated unit normal, or the cached face normal without a pool.
pub open spec fn tri_normal_at_spec(m: TriangleMesh, idx: int, b1: int, b2: int, face: Vec3d)
    -> Vec3d {
    if m.normals@.len() == 0 {
        face
    } else {
        let n0 = m.normals@[m.indices@[idx] as int];
        let n1 = m.normals@[m.indices@[idx + 1] as int];
        let n2 = m.normals@[m.indices@[idx + 2] as int];
        let b0 = (FX_ONE as int) - b1 - b2;
        let blend = Vec3d {
            x: (fmul(n0.x as int, b0) + fmul(n1.x as int, b1) + fmul(n2.x as int, b2)) as i64,
            y: (fmul(n0.y as int, b0) + fmul(n1.y as int, b1) + fmul(n2.y as int, b2)) as i64,
            z: (fmul(n0.z as int, b0) + fmul(n1.z as int, b1) + fmul(n2.z as int, b2)) as i64,
        };
        Vec3d::normalize_spec(blend)
    }
}

/// The interpolated surface coordinate, or the square's center without a pool.
pub open spec fn tri_uv_at_spec(m: TriangleMesh, idx: int, b1: int, b2: int) -> UV {
    if m.tex_coords@.len() == 0 {
        UV { u: (FX_ONE / 2) as i64, v: (FX_ONE / 2) as i64 }
    } else {
        let t0 = m.tex_coords@[m.indices@[idx] as int];
        let t1 = m.tex_coords@[m.indices@[idx + 1] as int];
        let t2 = m.tex_coords@[m.indices@[idx + 2] as int];
        let b0 = (FX_ONE as int) - b1 - b2;
        UV {
            u: (fmul(t0.u as int, b0) + fmul(t1.u as int, b1) + fmul(t2.u as int, b2)) as i64,
            v: (fmul(t0.v as int, b0) + fmul(t1.v as int, b1) + fmul(t2.v as int, b2)) as i64,
        }
    }
}

/// The triangle intersection: the solver's parameter with interpolated
/// normal and surface coordinate.
pub open spec fn triangle_hit_spec(
    m: TriangleMesh,
    idx: int,
    face: Vec3d,
    r: Ray,
    t_min: i64,
    t_max: i64,
) -> Option<HitRecord> {
    match tri_intersect_spec(m, idx, r, t_min, t_max) {
        None => None,
        Some((t, b1, b2)) => Some(
            HitRecord {
                point: at_spec(r, t),
                unit_normal: tri_normal_at_spec(m, idx, b1, b2, face),
                hit_t: t as i64,
                material: m.material,
                mat_uv: tri_uv_at_spec(m, idx, b1, b2),
            },
        ),
    }
}

/// The smaller of two scalars, executable.
pub fn min2_exec(a: i64, b: i64) -> (r: i64)
    ensures
        r == min2(a, b),
{
    if a <= b {
        a
    } else {
        b
    }
}

/// The larger of two scalars, executable.
pub fn max2_exec(a: i64, b: i64) -> (r: i64)
    ensures
        r == max2(a, b),
{
    if a >= b {
        a
    } else {
        b
    }
}

} // verus!
