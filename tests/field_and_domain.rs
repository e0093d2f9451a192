use quotient_core::domain::Coset;
use quotient_core::field::{base_add, base_mul, base_neg, base_sub, ext_mul, ext_scale, Ext, MODULUS};

const P: u32 = MODULUS as u32;

fn ext(c0: u32, c1: u32, c2: u32, c3: u32) -> Ext {
    Ext { c0, c1, c2, c3 }
}

fn pow(x: u32, e: u64) -> u32 {
    let mut r: u32 = 1;
    for _ in 0..e {
        r = base_mul(r, x);
    }
    r
}

#[test]
fn base_arithmetic_wraps_at_the_modulus() {
    assert_eq!(base_add(P - 1, 5), 4);
    assert_eq!(base_sub(3, 5), P - 2);
    assert_eq!(base_neg(1), P - 1);
    assert_eq!(base_neg(0), 0);
    assert_eq!(base_mul(1 << 20, 1 << 20), 268434910);
}

#[test]
fn extension_product_reduces_x4_to_eleven() {
    assert_eq!(ext_mul(ext(0, 1, 0, 0), ext(0, 0, 0, 1)), ext(11, 0, 0, 0));
    assert_eq!(ext_mul(ext(1, 2, 3, 4), ext(5, 6, 7, 8)), ext(676, 588, 386, 60));
    assert_eq!(ext_scale(ext(1, 2, 3, 4), 3), ext(3, 6, 9, 12));
}

#[test]
fn natural_domain_points_follow_the_two_adic_generator() {
    let d = Coset::natural_domain(3);
    assert_eq!(d.size(), 8);
    let pts = d.points();
    assert_eq!(pts.len(), 8);
    assert_eq!(pts[0], 1);
    assert_eq!(pts[1], 1592366214);
    assert_eq!(pow(pts[1], 8), 1);
    assert_ne!(pow(pts[1], 4), 1);
    for k in 0..8 {
        assert_eq!(pts[k], pow(pts[1], k as u64));
    }
}

#[test]
fn quotient_domain_size_is_trace_size_times_degree() {
    for h in 1..=20usize {
        for d in [1usize, 2, 4, 8] {
            let trace = Coset::natural_domain(h);
            let q = trace.create_disjoint_domain(trace.size() * d);
            assert_eq!(q.size(), (1usize << h) * d);
            assert_eq!(q.shift, 31);
        }
    }
}

#[test]
fn quotient_domain_is_disjoint_from_trace_domain() {
    for h in 1..=8usize {
        for d in [1usize, 2, 4, 8] {
            let trace = Coset::natural_domain(h);
            let q = trace.create_disjoint_domain(trace.size() * d);
            let tp: std::collections::HashSet<u32> = trace.points().into_iter().collect();
            for x in q.points() {
                assert!(!tp.contains(&x));
                assert_ne!(trace.vanishing_at(x), 0);
            }
            for x in trace.points() {
                assert_eq!(trace.vanishing_at(x), 0);
            }
        }
    }
}

#[test]
fn split_domains_are_strided_cosets() {
    let trace = Coset::natural_domain(2);
    let q = trace.create_disjoint_domain(16);
    let pts = q.points();
    let parts = q.split_domains(4);
    assert_eq!(parts.len(), 4);
    for (i, part) in parts.iter().enumerate() {
        assert_eq!(part.log_size, 2);
        assert_eq!(part.shift, pts[i]);
        let sub = part.points();
        for j in 0..4 {
            assert_eq!(sub[j], pts[j * 4 + i]);
        }
    }
}
