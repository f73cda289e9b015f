use std::ops::Bound;
use vistream::frame::{
    all, Frame, FrameError, FrameView, FrameViewMut, Luma, PixelFormat, PixelIter, Pixelate,
    PixelateMut, Raw, BGR, BGRA, MJPG, RGB, RGBA, YUYV,
};

fn luma(bytes: Vec<u8>, width: usize, height: usize) -> Frame<Luma> {
    assert!(Frame::<Luma>::size_fits(width, height));
    Frame::new(bytes, width, height)
}

fn rgb(bytes: Vec<u8>, width: usize, height: usize) -> Frame<RGB> {
    assert!(Frame::<RGB>::size_fits(width, height));
    Frame::new(bytes, width, height)
}

fn counting(width: usize, height: usize) -> Frame<RGB> {
    let mut bytes = Vec::new();
    for i in 0..width * height * 3 {
        bytes.push((i * 7 % 251) as u8);
    }
    rgb(bytes, width, height)
}

fn span(from: usize, to: usize) -> (Bound<usize>, Bound<usize>) {
    (Bound::Included(from), Bound::Excluded(to))
}

#[test]
fn byte_counts_of_the_formats() {
    assert_eq!(RGB::byte_count(), 3);
    assert_eq!(BGR::byte_count(), 3);
    assert_eq!(RGBA::byte_count(), 4);
    assert_eq!(BGRA::byte_count(), 4);
    assert_eq!(YUYV::byte_count(), 4);
    assert_eq!(MJPG::byte_count(), 1);
    assert_eq!(Luma::byte_count(), 1);
    assert_eq!(Raw::<7>::byte_count(), 7);
    assert_eq!(Raw::<0>::byte_count(), 0);
}

#[test]
fn pixelable_means_one_pixel_per_position() {
    let f = rgb(vec![0; 12], 2, 2);
    assert!(f.is_pixelable());
    assert_eq!(f.bytes().len(), f.width() * f.height() * RGB::byte_count());
    let short = rgb(vec![0; 11], 2, 2);
    assert!(!short.is_pixelable());
    let long = rgb(vec![0; 13], 2, 2);
    assert!(!long.is_pixelable());
    let jpeg: Frame<MJPG> = Frame::new(vec![0xff, 0xd8, 0xff], 640, 480);
    assert!(!jpeg.is_pixelable());
    let empty = luma(vec![], 0, 5);
    assert!(empty.is_pixelable());
}

#[test]
fn size_fits_refuses_extents_beyond_the_address_space() {
    assert!(Frame::<RGB>::size_fits(640, 480));
    assert!(Frame::<RGB>::size_fits(0, usize::MAX));
    assert!(!Frame::<RGB>::size_fits(usize::MAX, 2));
    assert!(!Frame::<RGB>::size_fits(usize::MAX / 2, 2));
    assert!(Frame::<Luma>::size_fits(usize::MAX, 1));
    assert!(!Frame::<Raw<0>>::size_fits(usize::MAX, 2));
}

#[test]
fn extents_and_length() {
    let f = rgb(vec![0; 18], 3, 2);
    assert_eq!(f.width(), 3);
    assert_eq!(f.height(), 2);
    assert_eq!(f.len(), 6);
    assert_eq!(f.byte_len(), 18);
    assert_eq!(f.row_offset(), 0);
    assert_eq!(f.col_offset(), 0);
    assert_eq!(f.coord(0), Some((0, 0)));
    assert_eq!(f.coord(4), Some((1, 1)));
    assert_eq!(f.coord(5), Some((2, 1)));
    assert_eq!(f.coord(6), None);
}

#[test]
fn rotate90_moves_every_pixel() {
    let f = luma(vec![1, 2, 3, 4, 5, 6], 3, 2);
    let r = f.rotate90().unwrap();
    assert_eq!(r.width(), 2);
    assert_eq!(r.height(), 3);
    assert_eq!(r.bytes(), &vec![4, 1, 5, 2, 6, 3]);
    assert!(r.is_pixelable());
}

#[test]
fn rotate270_moves_every_pixel() {
    let f = luma(vec![1, 2, 3, 4, 5, 6], 3, 2);
    let r = f.rotate270().unwrap();
    assert_eq!(r.width(), 2);
    assert_eq!(r.height(), 3);
    assert_eq!(r.bytes(), &vec![3, 6, 2, 5, 1, 4]);
}

#[test]
fn rotate180_moves_every_pixel() {
    let f = luma(vec![1, 2, 3, 4, 5, 6], 3, 2);
    let r = f.rotate180().unwrap();
    assert_eq!(r.width(), 3);
    assert_eq!(r.height(), 2);
    assert_eq!(r.bytes(), &vec![6, 5, 4, 3, 2, 1]);
}

#[test]
fn flips_move_every_pixel() {
    let f = luma(vec![1, 2, 3, 4, 5, 6], 3, 2);
    assert_eq!(f.flip_vertical().unwrap().bytes(), &vec![4, 5, 6, 1, 2, 3]);
    assert_eq!(f.flip_horizontal().unwrap().bytes(), &vec![3, 2, 1, 6, 5, 4]);
}

#[test]
fn pixels_move_whole() {
    let f = rgb(vec![1, 2, 3, 4, 5, 6], 2, 1);
    assert_eq!(f.flip_horizontal().unwrap().bytes(), &vec![4, 5, 6, 1, 2, 3]);
    assert_eq!(f.rotate180().unwrap().bytes(), &vec![4, 5, 6, 1, 2, 3]);
    let r = f.rotate90().unwrap();
    assert_eq!((r.width(), r.height()), (1, 2));
    assert_eq!(r.bytes(), &vec![1, 2, 3, 4, 5, 6]);
    let l = f.rotate270().unwrap();
    assert_eq!((l.width(), l.height()), (1, 2));
    assert_eq!(l.bytes(), &vec![4, 5, 6, 1, 2, 3]);
}

#[test]
fn quarter_turns_undo_each_other() {
    for (w, h) in [(1, 1), (2, 3), (3, 2), (5, 4), (4, 5), (7, 1), (1, 7), (0, 3)] {
        let f = counting(w, h);
        let there = f.rotate90().unwrap().rotate270().unwrap();
        assert_eq!((there.width(), there.height()), (w, h));
        assert_eq!(there.bytes(), f.bytes());
        let back = f.rotate270().unwrap().rotate90().unwrap();
        assert_eq!(back.bytes(), f.bytes());
    }
}

#[test]
fn four_quarter_turns_are_none() {
    for (w, h) in [(1, 1), (2, 3), (3, 3), (5, 4), (6, 1)] {
        let f = counting(w, h);
        let r = f.rotate90().unwrap().rotate90().unwrap().rotate90().unwrap().rotate90().unwrap();
        assert_eq!((r.width(), r.height()), (w, h));
        assert_eq!(r.bytes(), f.bytes());
    }
}

#[test]
fn two_quarter_turns_are_a_half_turn() {
    let f = counting(4, 3);
    let twice = f.rotate90().unwrap().rotate90().unwrap();
    assert_eq!(twice.bytes(), f.rotate180().unwrap().bytes());
}

#[test]
fn half_turn_and_flips_undo_themselves() {
    for (w, h) in [(1, 1), (2, 3), (3, 3), (5, 4), (4, 5)] {
        let f = counting(w, h);
        assert_eq!(f.rotate180().unwrap().rotate180().unwrap().bytes(), f.bytes());
        assert_eq!(f.flip_vertical().unwrap().flip_vertical().unwrap().bytes(), f.bytes());
        assert_eq!(f.flip_horizontal().unwrap().flip_horizontal().unwrap().bytes(), f.bytes());
    }
}

#[test]
fn in_place_forms_agree_with_the_copying_forms() {
    for (w, h) in [(1, 1), (2, 2), (3, 3), (2, 3), (3, 2), (5, 4), (4, 5), (7, 5), (0, 0), (1, 6)] {
        let f = counting(w, h);
        let mut a = f.clone();
        a.rotate180_in_place().unwrap();
        assert_eq!(a.bytes(), f.rotate180().unwrap().bytes());
        let mut b = f.clone();
        b.flip_vertical_in_place().unwrap();
        assert_eq!(b.bytes(), f.flip_vertical().unwrap().bytes());
        let mut c = f.clone();
        c.flip_horizontal_in_place().unwrap();
        assert_eq!(c.bytes(), f.flip_horizontal().unwrap().bytes());
    }
}

#[test]
fn half_turn_in_place_swaps_the_middle_row_of_an_odd_height() {
    let mut f = luma(vec![1, 2, 3, 4, 5, 6, 7, 8, 9], 3, 3);
    f.rotate180_in_place().unwrap();
    assert_eq!(f.bytes(), &vec![9, 8, 7, 6, 5, 4, 3, 2, 1]);
    let mut g = luma(vec![1, 2, 3, 4, 5], 5, 1);
    g.rotate180_in_place().unwrap();
    assert_eq!(g.bytes(), &vec![5, 4, 3, 2, 1]);
}

#[test]
fn in_place_forms_undo_themselves() {
    let f = counting(5, 3);
    let mut g = f.clone();
    g.rotate180_in_place().unwrap();
    g.rotate180_in_place().unwrap();
    assert_eq!(g.bytes(), f.bytes());
    g.flip_vertical_in_place().unwrap();
    g.flip_vertical_in_place().unwrap();
    assert_eq!(g.bytes(), f.bytes());
    g.flip_horizontal_in_place().unwrap();
    g.flip_horizontal_in_place().unwrap();
    assert_eq!(g.bytes(), f.bytes());
}

#[test]
fn writing_into_a_given_frame() {
    let f = luma(vec![1, 2, 3, 4, 5, 6], 3, 2);
    let mut turned = luma(vec![0; 6], 2, 3);
    f.rotate90_in(&mut turned).unwrap();
    assert_eq!(turned.bytes(), &vec![4, 1, 5, 2, 6, 3]);
    f.rotate270_in(&mut turned).unwrap();
    assert_eq!(turned.bytes(), &vec![3, 6, 2, 5, 1, 4]);
    let mut same = luma(vec![0; 6], 3, 2);
    f.rotate180_in(&mut same).unwrap();
    assert_eq!(same.bytes(), &vec![6, 5, 4, 3, 2, 1]);
    f.flip_vertical_in(&mut same).unwrap();
    assert_eq!(same.bytes(), &vec![4, 5, 6, 1, 2, 3]);
    f.flip_horizontal_in(&mut same).unwrap();
    assert_eq!(same.bytes(), &vec![3, 2, 1, 6, 5, 4]);
}

#[test]
fn geometry_fails_on_frames_that_are_not_pixelable() {
    let mut f: Frame<MJPG> = Frame::new(vec![1, 2, 3], 4, 4);
    assert!(matches!(f.rotate90(), Err(FrameError::DataFormat)));
    assert!(matches!(f.rotate180(), Err(FrameError::DataFormat)));
    assert!(matches!(f.rotate270(), Err(FrameError::DataFormat)));
    assert!(matches!(f.flip_vertical(), Err(FrameError::DataFormat)));
    assert!(matches!(f.flip_horizontal(), Err(FrameError::DataFormat)));
    assert!(matches!(f.rotate180_in_place(), Err(FrameError::DataFormat)));
    assert!(matches!(f.flip_vertical_in_place(), Err(FrameError::DataFormat)));
    assert!(matches!(f.flip_horizontal_in_place(), Err(FrameError::DataFormat)));
    assert_eq!(f.bytes(), &vec![1, 2, 3]);
    assert!(matches!(f.pixels(), Err(FrameError::DataFormat)));
    assert!(matches!(f.pixels_mut(), Err(FrameError::DataFormat)));
    assert!(matches!(f.view(all(), all()), Err(FrameError::DataFormat)));
    assert!(matches!(f.rows(all()), Err(FrameError::DataFormat)));
    assert!(matches!(f.cols(all()), Err(FrameError::DataFormat)));
    assert!(matches!(f.view_mut(all(), all()), Err(FrameError::DataFormat)));
    assert!(matches!(f.rows_mut(all()), Err(FrameError::DataFormat)));
    assert!(matches!(f.cols_mut(all()), Err(FrameError::DataFormat)));
}

#[test]
fn writing_into_a_frame_that_is_not_pixelable_fails_and_leaves_it() {
    let f = luma(vec![1, 2, 3, 4], 2, 2);
    let mut out = luma(vec![9, 9, 9], 2, 2);
    assert!(matches!(f.rotate90_in(&mut out), Err(FrameError::DataFormat)));
    assert!(matches!(f.rotate180_in(&mut out), Err(FrameError::DataFormat)));
    assert!(matches!(f.flip_vertical_in(&mut out), Err(FrameError::DataFormat)));
    assert_eq!(out.bytes(), &vec![9, 9, 9]);
    let bad = luma(vec![1, 2, 3], 2, 2);
    let mut good = luma(vec![7; 4], 2, 2);
    assert!(matches!(bad.rotate270_in(&mut good), Err(FrameError::DataFormat)));
    assert!(matches!(bad.flip_horizontal_in(&mut good), Err(FrameError::DataFormat)));
    assert_eq!(good.bytes(), &vec![7; 4]);
}

#[test]
fn frame_error_message() {
    assert_eq!(
        FrameError::DataFormat.message(),
        "frame data is not in a pixelatable format (probably MJPG)"
    );
}

#[test]
fn pixels_are_found_by_position_and_by_index() {
    let f = rgb(vec![1, 2, 3, 4, 5, 6, 7, 8, 9, 10, 11, 12], 2, 2);
    let p = f.get_pixel(1, 0).unwrap();
    assert_eq!((*p.index(0), *p.index(1), *p.index(2)), (4, 5, 6));
    assert_eq!(p.get(2), Some(&6));
    assert_eq!(p.get(3), None);
    let q = f.get_pixel_index(2).unwrap();
    assert_eq!(*q.index(0), 7);
    let last = f.get_pixel(1, 1).unwrap();
    assert_eq!(*last.index(2), 12);
    assert!(f.get_pixel_index(4).is_none());
    assert!(f.get_pixel(2, 0).is_none());
    assert!(f.get_pixel(0, 2).is_none());
    assert!(f.get_pixel(usize::MAX, usize::MAX).is_none());
}

#[test]
fn pixels_outside_the_buffer_are_absent() {
    let f = rgb(vec![1, 2, 3, 4, 5], 2, 2);
    assert!(f.get_pixel_index(0).is_some());
    assert!(f.get_pixel_index(1).is_none());
    assert!(f.get_pixel_index(3).is_none());
}

#[test]
fn pixels_are_written_through_handles() {
    let mut f = rgb(vec![0; 12], 2, 2);
    {
        let mut p = f.get_pixel_mut(1, 1).unwrap();
        p.set(0, 10);
        p.set(2, 30);
        assert_eq!(p.index(0), 10);
        assert_eq!(p.get(1), Some(0));
        assert_eq!(p.get(3), None);
    }
    assert_eq!(f.bytes(), &vec![0, 0, 0, 0, 0, 0, 0, 0, 0, 10, 0, 30]);
    assert!(f.get_pixel_mut(2, 0).is_none());
    assert!(f.get_pixel_index_mut(4).is_none());
    let src = rgb(vec![7, 8, 9], 1, 1);
    {
        let mut p = f.get_pixel_index_mut(0).unwrap();
        p.write_pixel(src.get_pixel_index(0).unwrap());
    }
    assert_eq!(f.bytes(), &vec![7, 8, 9, 0, 0, 0, 0, 0, 0, 10, 0, 30]);
    assert!(f.is_pixelable());
}

#[test]
fn bytes_mut_writes_the_buffer() {
    let mut f = luma(vec![1, 2, 3, 4], 2, 2);
    f.bytes_mut()[3] = 9;
    assert_eq!(f.bytes(), &vec![1, 2, 3, 9]);
    assert_eq!(f.bytes_mut().len(), 4);
    assert!(f.is_pixelable());
}

#[test]
fn walking_over_the_pixels() {
    let f = luma(vec![5, 6, 7], 3, 1);
    let mut it: PixelIter<Luma, Frame<Luma>> = f.pixels().unwrap();
    assert_eq!(*it.next().unwrap().index(0), 5);
    assert_eq!(*it.next().unwrap().index(0), 6);
    assert_eq!(*it.next().unwrap().index(0), 7);
    assert!(it.next().is_none());
    assert!(it.next().is_none());
}

#[test]
fn walking_and_writing() {
    let mut f = luma(vec![5, 6, 7], 3, 1);
    {
        let mut it = f.pixels_mut().unwrap();
        let mut n = 0;
        loop {
            match it.next() {
                Some(mut p) => {
                    let v = p.index(0);
                    p.set(0, v * 2);
                    n += 1;
                }
                None => break,
            }
        }
        assert_eq!(n, 3);
        assert!(it.next().is_none());
    }
    assert_eq!(f.bytes(), &vec![10, 12, 14]);
}

#[test]
fn a_view_covers_a_rectangle() {
    // 4 wide, 3 high
    let f = luma(vec![0, 1, 2, 3, 10, 11, 12, 13, 20, 21, 22, 23], 4, 3);
    let v: FrameView<Luma, Frame<Luma>> = f.view(span(1, 3), span(1, 4)).unwrap().unwrap();
    assert_eq!(v.width(), 3);
    assert_eq!(v.height(), 2);
    assert_eq!(v.len(), 6);
    assert_eq!(v.row_offset(), 1);
    assert_eq!(v.col_offset(), 1);
    assert_eq!(*v.get_pixel(0, 0).unwrap().index(0), 11);
    assert_eq!(*v.get_pixel(2, 1).unwrap().index(0), 23);
    assert_eq!(*v.get_pixel_index(3).unwrap().index(0), 21);
    assert!(v.get_pixel(3, 0).is_none());
    assert!(v.get_pixel(0, 2).is_none());
    assert!(v.get_pixel_index(6).is_none());
    assert_eq!(v.resolve_index(0), 5);
    assert_eq!(v.resolve_index(5), 11);
    let mut seen = Vec::new();
    let mut it = v.pixels();
    loop {
        match it.next() {
            Some(p) => seen.push(*p.index(0)),
            None => break,
        }
    }
    assert_eq!(seen, vec![11, 12, 13, 21, 22, 23]);
}

#[test]
fn bounds_of_every_kind_select_rows() {
    let f = luma(vec![0, 1, 2, 3, 10, 11, 12, 13, 20, 21, 22, 23], 4, 3);
    let whole = f.view(all(), all()).unwrap().unwrap();
    assert_eq!((whole.width(), whole.height()), (4, 3));
    let incl = f.rows((Bound::Included(0), Bound::Included(1))).unwrap().unwrap();
    assert_eq!((incl.width(), incl.height(), incl.row_offset()), (4, 2, 0));
    let from = f.rows((Bound::Included(2), Bound::Unbounded)).unwrap().unwrap();
    assert_eq!((from.height(), from.row_offset()), (1, 2));
    let upto = f.cols((Bound::Unbounded, Bound::Excluded(2))).unwrap().unwrap();
    assert_eq!((upto.width(), upto.height(), upto.col_offset()), (2, 3, 0));
    let empty = f.rows(span(3, 3)).unwrap().unwrap();
    assert_eq!((empty.height(), empty.len()), (0, 0));
    assert!(empty.get_pixel_index(0).is_none());
    // an excluded lower bound begins one before its endpoint
    let excl = f.rows((Bound::Excluded(2), Bound::Unbounded)).unwrap().unwrap();
    assert_eq!((excl.row_offset(), excl.height()), (1, 2));
}

#[test]
fn ranges_outside_the_extents_select_nothing() {
    let f = luma(vec![0; 12], 4, 3);
    assert!(f.view(span(0, 4), all()).unwrap().is_none());
    assert!(f.view(all(), span(0, 5)).unwrap().is_none());
    assert!(f.rows((Bound::Included(0), Bound::Included(3))).unwrap().is_none());
    assert!(f.rows((Bound::Included(0), Bound::Included(usize::MAX))).unwrap().is_none());
    assert!(f.rows((Bound::Excluded(0), Bound::Unbounded)).unwrap().is_none());
    assert!(f.rows(span(2, 1)).unwrap().is_none());
    assert!(f.cols(span(5, 4)).unwrap().is_none());
    assert!(f.view(span(0, 3), span(0, 4)).unwrap().is_some());
}

#[test]
fn views_of_views() {
    let f = luma(vec![0, 1, 2, 3, 10, 11, 12, 13, 20, 21, 22, 23], 4, 3);
    let outer = f.view(span(1, 3), span(1, 4)).unwrap().unwrap();
    let inner = outer.view(span(1, 2), span(1, 3)).unwrap();
    assert_eq!((inner.width(), inner.height()), (2, 1));
    assert_eq!(*inner.get_pixel(0, 0).unwrap().index(0), 22);
    assert_eq!(*inner.get_pixel(1, 0).unwrap().index(0), 23);
    assert!(inner.get_pixel(2, 0).is_none());
    assert_eq!(inner.row_offset(), 1);
    assert_eq!(inner.col_offset(), 1);
    assert!(outer.view(span(0, 3), all()).is_none());
    let r = FrameView::new(&outer, span(0, 1), all()).unwrap();
    assert_eq!(*r.get_pixel_index(2).unwrap().index(0), 13);
    let rows = outer.rows(span(1, 2)).unwrap();
    assert_eq!((rows.width(), rows.height()), (3, 1));
    let cols = outer.cols(span(2, 3)).unwrap();
    assert_eq!((cols.width(), cols.height()), (1, 2));
    assert_eq!(*cols.get_pixel(0, 1).unwrap().index(0), 23);
}

#[test]
fn writing_through_a_view() {
    let mut f = luma(vec![0, 1, 2, 3, 10, 11, 12, 13, 20, 21, 22, 23], 4, 3);
    {
        let mut v: FrameViewMut<Luma, Frame<Luma>> =
            f.view_mut(span(1, 3), span(2, 4)).unwrap().unwrap();
        assert_eq!((v.width(), v.height()), (2, 2));
        assert_eq!(v.resolve_index(3), 11);
        {
            let mut p = v.get_pixel_mut(1, 1).unwrap();
            p.set(0, 99);
        }
        assert_eq!(*v.get_pixel(1, 1).unwrap().index(0), 99);
        {
            let mut it = v.pixels_mut();
            let mut p = it.next().unwrap();
            p.set(0, 77);
        }
        assert!(v.get_pixel_mut(2, 0).is_none());
        assert!(v.get_pixel_index_mut(4).is_none());
        let mut seen = Vec::new();
        let mut it = v.pixels();
        loop {
            match it.next() {
                Some(p) => seen.push(*p.index(0)),
                None => break,
            }
        }
        assert_eq!(seen, vec![77, 13, 22, 99]);
    }
    assert_eq!(f.bytes(), &vec![0, 1, 2, 3, 10, 11, 77, 13, 20, 21, 22, 99]);
}

#[test]
fn writing_through_a_view_of_a_view() {
    let mut f = luma(vec![0, 1, 2, 3, 10, 11, 12, 13, 20, 21, 22, 23], 4, 3);
    {
        let mut outer = f.rows_mut(span(1, 3)).unwrap().unwrap();
        {
            let mut inner = outer.cols_mut(span(3, 4)).unwrap();
            assert_eq!((inner.width(), inner.height()), (1, 2));
            let mut p = inner.get_pixel_index_mut(1).unwrap();
            p.set(0, 55);
        }
        {
            let inner = outer.view_mut(span(0, 1), span(0, 1)).unwrap();
            assert_eq!(*inner.get_pixel(0, 0).unwrap().index(0), 10);
        }
        assert!(outer.rows_mut(span(0, 3)).is_none());
        let read = outer.view(all(), span(3, 4)).unwrap();
        assert_eq!(*read.get_pixel(0, 1).unwrap().index(0), 55);
        assert_eq!(outer.rows(span(1, 2)).unwrap().height(), 1);
        assert_eq!(outer.cols(span(1, 2)).unwrap().width(), 1);
    }
    assert_eq!(f.bytes()[11], 55);
    let g = FrameViewMut::new(&mut f, span(0, 4), all());
    assert!(g.is_none());
}
