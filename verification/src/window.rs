//! The editor window: the views and buffers that are open, the size of the
//! window and the line height of its font.
//!
//! A view shows one buffer, and several views may show the same buffer: a
//! view names its buffer by the buffer's place in the window's list.

use crate::buffer::Buffer;
use crate::display::{
    display_of, render, renderable, try_render, DisplayCommand, FontMetrics, ViewState,
};
use vstd::prelude::*;

verus! {

/// The number of lines that fit a page: the lines that the height holds, less
/// one.
pub open spec fn page_length(height: int, font_height: int) -> int {
    height / font_height - 1
}

/// The state of the editor window.
pub struct EditorWindow {
    views: Vec<ViewState>,
    view_buffers: Vec<usize>,
    buffers: Vec<Buffer>,
    width: usize,
    height: usize,
    font_height: usize,
    current_view: usize,
}

impl EditorWindow {
    /// The views, in the order in which they were opened.
    pub closed spec fn views(&self) -> Seq<ViewState> {
        self.views@
    }

    /// The buffers, in the order in which they were opened.
    pub closed spec fn buffers(&self) -> Seq<Buffer> {
        self.buffers@
    }

    /// For each view, the place of its buffer in `buffers`.
    pub closed spec fn view_buffers(&self) -> Seq<usize> {
        self.view_buffers@
    }

    /// The width of the window, in pixels.
    pub closed spec fn spec_width(&self) -> usize {
        self.width
    }

    /// The height of the window, in pixels.
    pub closed spec fn spec_height(&self) -> usize {
        self.height
    }

    /// The distance from one line of text to the next, in pixels.
    pub closed spec fn spec_font_height(&self) -> usize {
        self.font_height
    }

    /// The place of the active view in `views`.
    pub closed spec fn spec_current_view(&self) -> usize {
        self.current_view
    }

    /// The window is well-formed: the active view exists, every view has a
    /// buffer, and lines have a height.
    pub open spec fn wf(&self) -> bool {
        &&& self.spec_current_view() < self.views().len()
        &&& self.view_buffers().len() == self.views().len()
        &&& forall|i: int|
            0 <= i < self.view_buffers().len() ==> #[trigger] self.view_buffers()[i]
                < self.buffers().len()
        &&& self.spec_font_height() > 0
    }

    /// The active view.
    pub open spec fn active_view(&self) -> ViewState {
        self.views()[self.spec_current_view() as int]
    }

    /// The buffer of the active view.
    pub open spec fn active_buffer(&self) -> Buffer {
        self.buffers()[self.view_buffers()[self.spec_current_view() as int] as int]
    }

    /// Creates a window with one view on one buffer: on `file`, or on an
    /// empty buffer where there is none. The view starts at the top of its
    /// buffer with nothing selected.
    pub fn new(width: usize, height: usize, font_height: usize, file: Option<Buffer>) -> (w: Self)
        requires
            font_height > 0,
            height / font_height >= 1,
        ensures
            w.wf(),
            w.spec_width() == width,
            w.spec_height() == height,
            w.spec_font_height() == font_height,
            w.spec_current_view() == 0,
            w.views().len() == 1,
            w.buffers().len() == 1,
            w.view_buffers() == seq![0usize],
            w.active_view() == (ViewState {
                index: 0,
                selection: None,
                first_visible_line: 0,
                page_length: page_length(height as int, font_height as int) as usize,
            }),
            match file {
                Some(b) => w.active_buffer() == b,
                None => w.active_buffer()@ == Seq::<char>::empty() && !w.active_buffer().dirty()
                    && w.active_buffer().source_path() is None,
            },
    {
        let mut w = EditorWindow::init(width, height, font_height);
        w.add_new_view(file);
        w
    }

    /// A window without views.
    fn init(width: usize, height: usize, font_height: usize) -> (w: Self)
        ensures
            w.views().len() == 0,
            w.view_buffers().len() == 0,
            w.buffers().len() == 0,
            w.spec_width() == width,
            w.spec_height() == height,
            w.spec_font_height() == font_height,
            w.spec_current_view() == 0,
    {
        EditorWindow {
            views: Vec::new(),
            view_buffers: Vec::new(),
            buffers: Vec::new(),
            width,
            height,
            font_height,
            current_view: 0,
        }
    }

    /// Opens a buffer, `file` or an empty one, and a view on it.
    fn add_new_view(&mut self, file: Option<Buffer>)
        requires
            old(self).spec_font_height() > 0,
            old(self).spec_height() / old(self).spec_font_height() >= 1,
            old(self).view_buffers().len() == old(self).views().len(),
            forall|i: int|
                0 <= i < old(self).view_buffers().len() ==> #[trigger] old(self).view_buffers()[i]
                    < old(self).buffers().len(),
            old(self).spec_current_view() <= old(self).views().len(),
        ensures
            final(self).wf(),
            final(self).spec_width() == old(self).spec_width(),
            final(self).spec_height() == old(self).spec_height(),
            final(self).spec_font_height() == old(self).spec_font_height(),
            final(self).spec_current_view() == old(self).spec_current_view(),
            final(self).views() == old(self).views().push(
                ViewState {
                    index: 0,
                    selection: None,
                    first_visible_line: 0,
                    page_length: page_length(
                        old(self).spec_height() as int,
                        old(self).spec_font_height() as int,
                    ) as usize,
                },
            ),
            final(self).view_buffers() == old(self).view_buffers().push(
                old(self).buffers().len() as usize,
            ),
            final(self).buffers().len() == old(self).buffers().len() + 1,
            forall|i: int|
                0 <= i < old(self).buffers().len() ==> final(self).buffers()[i] == old(self).buffers()[i],
            match file {
                Some(b) => final(self).buffers().last() == b,
                None => final(self).buffers().last()@ == Seq::<char>::empty() && !final(self).buffers().last().dirty() && final(self).buffers().last().source_path() is None,
            },
    {
        let b = match file {
            None => Buffer::new(),
            Some(file) => file,
        };
        let handle = self.buffers.len();
        self.buffers.push(b);
        let v = ViewState {
            index: 0,
            selection: None,
            first_visible_line: 0,
            page_length: self.height / self.font_height - 1,
        };
        self.view_buffers.push(handle);
        self.views.push(v);
    }

    /// The width of the window, in pixels.
    pub fn width(&self) -> (w: usize)
        ensures
            w == self.spec_width(),
    {
        self.width
    }

    /// The height of the window, in pixels.
    pub fn height(&self) -> (h: usize)
        ensures
            h == self.spec_height(),
    {
        self.height
    }

    /// The distance from one line of text to the next, in pixels.
    pub fn font_height(&self) -> (h: usize)
        ensures
            h == self.spec_font_height(),
    {
        self.font_height
    }

    /// The place of the active view among the views.
    pub fn current_view(&self) -> (i: usize)
        ensures
            i == self.spec_current_view(),
    {
        self.current_view
    }

    /// The active view.
    pub fn view(&self) -> (v: &ViewState)
        requires
            self.wf(),
        ensures
            *v == self.active_view(),
    {
        &self.views[self.current_view]
    }

    /// The buffer of the active view.
    pub fn buffer(&self) -> (b: &Buffer)
        requires
            self.wf(),
        ensures
            *b == self.active_buffer(),
    {
        &self.buffers[self.view_buffers[self.current_view]]
    }

    /// The active view and its buffer, to be changed in place. The window
    /// stays as it is but for these two.
    pub fn active_mut(&mut self) -> (r: (&mut ViewState, &mut Buffer))
        requires
            old(self).wf(),
        ensures
            *r.0 == old(self).active_view(),
            *r.1 == old(self).active_buffer(),
            final(self).wf(),
            final(self).views() == old(self).views().update(
                old(self).spec_current_view() as int,
                *final(r.0),
            ),
            final(self).buffers() == old(self).buffers().update(
                old(self).view_buffers()[old(self).spec_current_view() as int] as int,
                *final(r.1),
            ),
            final(self).view_buffers() == old(self).view_buffers(),
            final(self).spec_width() == old(self).spec_width(),
            final(self).spec_height() == old(self).spec_height(),
            final(self).spec_font_height() == old(self).spec_font_height(),
            final(self).spec_current_view() == old(self).spec_current_view(),
    {
        let handle = self.view_buffers[self.current_view];
        (&mut self.views[self.current_view], &mut self.buffers[handle])
    }

    /// Gives the window a new size, and the active view the page length that
    /// goes with the new height.
    pub fn resize(&mut self, width: usize, height: usize)
        requires
            old(self).wf(),
            height / old(self).spec_font_height() >= 1,
        ensures
            final(self).wf(),
            final(self).spec_width() == width,
            final(self).spec_height() == height,
            final(self).spec_font_height() == old(self).spec_font_height(),
            final(self).spec_current_view() == old(self).spec_current_view(),
            final(self).buffers() == old(self).buffers(),
            final(self).view_buffers() == old(self).view_buffers(),
            final(self).views() == old(self).views().update(
                old(self).spec_current_view() as int,
                ViewState {
                    page_length: page_length(
                        height as int,
                        old(self).spec_font_height() as int,
                    ) as usize,
                    ..old(self).active_view()
                },
            ),
    {
        self.width = width;
        self.height = height;
        let page_length = self.height / self.font_height - 1;
        self.views[self.current_view].page_length = page_length;
    }

    /// Appends to `display_list` the display list of the active view, if the
    /// view can be drawn with `font`, and tells whether it did.
    pub fn try_draw(&self, display_list: &mut Vec<DisplayCommand>, font: &FontMetrics) -> (drawn:
        bool)
        requires
            self.wf(),
        ensures
            drawn == renderable(
                self.active_buffer()@,
                self.active_view(),
                *font,
                self.spec_height() as int,
            ),
            drawn ==> final(display_list)@ == old(display_list)@ + display_of(
                self.active_buffer()@,
                self.active_view(),
                *font,
                self.spec_height() as int,
            ),
            !drawn ==> final(display_list)@ == old(display_list)@,
    {
        match try_render(self.buffer(), self.view(), font, self.height) {
            Some(mut commands) => {
                display_list.append(&mut commands);
                true
            },
            None => false,
        }
    }

    /// Appends to `display_list` the display list of the active view: its own
    /// buffer as it shows it, in a viewport as high as the window.
    pub fn draw(&self, display_list: &mut Vec<DisplayCommand>, font: &FontMetrics)
        requires
            self.wf(),
            renderable(self.active_buffer()@, self.active_view(), *font, self.spec_height() as int),
        ensures
            final(display_list)@ == old(display_list)@ + display_of(
                self.active_buffer()@,
                self.active_view(),
                *font,
                self.spec_height() as int,
            ),
    {
        let mut commands = render(self.buffer(), self.view(), font, self.height);
        display_list.append(&mut commands);
    }
}

} // verus!
