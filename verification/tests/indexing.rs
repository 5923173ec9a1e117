use plato_filter::{
    butterworth_sections, centered_window, difference_stencil, median_rank, replicate_index,
    savgol_plan, window_plan, DifferenceStencil, FilterType, MedianRank, SavgolParamError,
    SavgolPlan, SectionKind,
};

#[test]
fn window_at_left_edge_uses_available_samples() {
    assert_eq!(centered_window(0, 10, 5), (0, 3));
    assert_eq!(centered_window(1, 10, 5), (0, 4));
}

#[test]
fn window_in_interior_is_full_and_symmetric() {
    assert_eq!(centered_window(5, 10, 5), (3, 8));
    let (lo, hi) = centered_window(5, 10, 5);
    assert_eq!(5 - lo, hi - 1 - 5);
}

#[test]
fn window_at_right_edge_uses_available_samples() {
    assert_eq!(centered_window(9, 10, 5), (7, 10));
    assert_eq!(centered_window(8, 10, 5), (6, 10));
}

#[test]
fn even_window_spans_exactly_window_samples() {
    let (lo, hi) = centered_window(5, 10, 4);
    assert_eq!((lo, hi), (3, 7));
    assert_eq!(hi - lo, 4);
    assert_eq!(centered_window(5, 10, 2), (4, 6));
}

#[test]
fn even_window_at_edges_is_cut() {
    assert_eq!(centered_window(0, 10, 4), (0, 2));
    assert_eq!(centered_window(9, 10, 4), (7, 10));
    assert_eq!(centered_window(8, 10, 4), (6, 10));
}

#[test]
fn window_of_one_is_the_sample_itself() {
    assert_eq!(centered_window(4, 10, 1), (4, 5));
}

#[test]
fn huge_window_covers_whole_signal() {
    assert_eq!(centered_window(3, 10, usize::MAX), (0, 10));
    assert_eq!(centered_window(0, 1, 5), (0, 1));
}

#[test]
fn windows_always_contain_their_centre() {
    for n in 1..12usize {
        for w in 1..15usize {
            for i in 0..n {
                let (lo, hi) = centered_window(i, n, w);
                assert!(lo <= i && i < hi && hi <= n);
                assert!(hi - lo <= w);
                if w / 2 <= i && i + (w - 1 - w / 2) < n {
                    assert_eq!(hi - lo, w);
                }
            }
        }
    }
}

#[test]
fn median_rank_of_odd_count() {
    assert_eq!(median_rank(1), MedianRank::Middle(0));
    assert_eq!(median_rank(3), MedianRank::Middle(1));
    assert_eq!(median_rank(7), MedianRank::Middle(3));
}

#[test]
fn median_rank_of_even_count() {
    assert_eq!(median_rank(2), MedianRank::Between(0, 1));
    assert_eq!(median_rank(4), MedianRank::Between(1, 2));
}

#[test]
fn median_ranks_are_symmetric() {
    for len in 1..40usize {
        let (a, b) = match median_rank(len) {
            MedianRank::Middle(m) => (m, m),
            MedianRank::Between(a, b) => (a, b),
        };
        assert!(a <= b && b < len);
        assert_eq!(a + b, len - 1);
    }
}

#[test]
fn replicate_index_before_start_reads_first_sample() {
    assert_eq!(replicate_index(0, 0, 3, 10), 0);
    assert_eq!(replicate_index(1, 1, 3, 10), 0);
}

#[test]
fn replicate_index_inside_reads_the_tap() {
    assert_eq!(replicate_index(0, 5, 3, 10), 2);
    assert_eq!(replicate_index(5, 3, 3, 10), 5);
    assert_eq!(replicate_index(5, 6, 3, 10), 8);
}

#[test]
fn replicate_index_past_end_reads_last_sample() {
    assert_eq!(replicate_index(9, 6, 3, 10), 9);
    assert_eq!(replicate_index(8, 5, 3, 10), 9);
    assert_eq!(replicate_index(2, usize::MAX, 0, 10), 9);
}

#[test]
fn replicate_index_on_single_sample() {
    for tap in 0..7 {
        assert_eq!(replicate_index(0, tap, 3, 1), 0);
    }
}

#[test]
fn difference_stencil_forward_central_backward() {
    assert_eq!(difference_stencil(0, 5), DifferenceStencil { ahead: 1, behind: 0, span: 1 });
    assert_eq!(difference_stencil(2, 5), DifferenceStencil { ahead: 3, behind: 1, span: 2 });
    assert_eq!(difference_stencil(4, 5), DifferenceStencil { ahead: 4, behind: 3, span: 1 });
}

#[test]
fn difference_stencil_on_two_samples() {
    assert_eq!(difference_stencil(0, 2), DifferenceStencil { ahead: 1, behind: 0, span: 1 });
    assert_eq!(difference_stencil(1, 2), DifferenceStencil { ahead: 1, behind: 0, span: 1 });
}

fn pair(pair: usize, angle_num: u128, angle_den: u128) -> SectionKind {
    SectionKind::SecondOrder { pair, angle_num, angle_den }
}

#[test]
fn butterworth_even_order_is_pole_pairs() {
    assert_eq!(butterworth_sections(4), vec![pair(1, 1, 8), pair(2, 3, 8)]);
    assert_eq!(butterworth_sections(2), vec![pair(1, 1, 4)]);
}

#[test]
fn butterworth_odd_order_ends_with_first_order() {
    assert_eq!(butterworth_sections(1), vec![SectionKind::FirstOrder]);
    assert_eq!(butterworth_sections(3), vec![pair(1, 2, 6), SectionKind::FirstOrder]);
    assert_eq!(
        butterworth_sections(5),
        vec![pair(1, 2, 10), pair(2, 4, 10), SectionKind::FirstOrder]
    );
}

#[test]
fn butterworth_pole_pairs_lie_in_left_half_plane_off_axis() {
    for order in 1..30usize {
        for s in butterworth_sections(order) {
            if let SectionKind::SecondOrder { angle_num, angle_den, .. } = s {
                assert!(angle_num > 0 && 2 * angle_num < angle_den);
            }
        }
    }
}

#[test]
fn butterworth_order_zero_has_no_sections() {
    assert!(butterworth_sections(0).is_empty());
}

#[test]
fn butterworth_cascade_order_equals_requested_order() {
    for order in 0..30usize {
        let total: usize = butterworth_sections(order)
            .iter()
            .map(|s| match s {
                SectionKind::FirstOrder => 1,
                SectionKind::SecondOrder { .. } => 2,
            })
            .sum();
        assert_eq!(total, order);
    }
}

#[test]
fn filter_type_variants_are_distinct() {
    let types = vec![
        FilterType::LowPass,
        FilterType::HighPass,
        FilterType::BandPass,
        FilterType::BandStop,
        FilterType::Notch,
    ];
    for (i, a) in types.iter().enumerate() {
        for (j, b) in types.iter().enumerate() {
            assert_eq!(i == j, a == b);
        }
    }
    let copy = types[0];
    assert_eq!(copy, FilterType::LowPass);
}

#[test]
fn window_plan_passes_empty_signal_or_zero_window_through() {
    assert_eq!(window_plan(0, 5), None);
    assert_eq!(window_plan(7, 0), None);
}

#[test]
fn window_plan_has_one_window_per_sample() {
    let plan = window_plan(6, 3).unwrap();
    assert_eq!(plan, vec![(0, 2), (0, 3), (1, 4), (2, 5), (3, 6), (4, 6)]);
    let even = window_plan(5, 4).unwrap();
    assert_eq!(even, vec![(0, 2), (0, 3), (0, 4), (1, 5), (2, 5)]);
}

#[test]
fn savgol_plan_passes_through_empty_or_zero_window() {
    assert_eq!(savgol_plan(0, 5, 2), Ok(SavgolPlan::PassThrough));
    assert_eq!(savgol_plan(10, 0, 2), Ok(SavgolPlan::PassThrough));
    assert_eq!(savgol_plan(0, 4, 9), Ok(SavgolPlan::PassThrough));
}

#[test]
fn savgol_plan_refuses_even_window() {
    assert_eq!(savgol_plan(10, 4, 1), Err(SavgolParamError::EvenWindow));
    assert_eq!(savgol_plan(10, 4, 9), Err(SavgolParamError::EvenWindow));
}

#[test]
fn savgol_plan_refuses_order_not_below_window() {
    assert_eq!(savgol_plan(10, 5, 5), Err(SavgolParamError::OrderNotBelowWindow));
    assert_eq!(savgol_plan(10, 5, 7), Err(SavgolParamError::OrderNotBelowWindow));
}

#[test]
fn savgol_plan_smooths_valid_request() {
    assert_eq!(savgol_plan(30, 5, 1), Ok(SavgolPlan::Smooth { half: 2, terms: 2 }));
    assert_eq!(savgol_plan(50, 7, 3), Ok(SavgolPlan::Smooth { half: 3, terms: 4 }));
    assert_eq!(savgol_plan(1, 1, 0), Ok(SavgolPlan::Smooth { half: 0, terms: 1 }));
}
