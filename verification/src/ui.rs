//! The widgets: a line of text with optional centring and frame, the card
//! side that shows one face of a card, and a container that lays its
//! children out side by side.

use crate::game::Kadeu;
use crate::layout::{center, is_centered, is_even_split, split_evenly, total_extent, Area, Axis};
use crate::layout::{lemma_even_split_regions_inside, lemma_even_split_regions_valid};
use crate::toolkit::{blank_buffer, blank_cells};
use crate::toolkit::{buffer_area, buffer_bounds, buffer_cells, intact, kept_outside};
use crate::toolkit::{cell_x, cell_y, frame_glyph, framed, in_title_span, paint_frame};
use crate::toolkit::{PARAGRAPH_LIMIT, TEXT_LIMIT};
use crate::toolkit::{line_width, measure_line, measure_text, text_width};
use crate::toolkit::{paint_paragraph, paragraph_painted};
use crate::toolkit::{paint_text, text_painted};
use crate::toolkit::{paint_titled_frame, titled_frame_painted};
use crate::Pin;
use ratatui::buffer::Buffer;
use std::collections::VecDeque;
use vstd::prelude::*;

verus! {

/// Items waiting to be shown, the next one at the front.
pub type SlideShow<T> = VecDeque<Box<T>>;

/// What can be drawn into an area of a buffer.
pub trait Render {
    /// Whether drawing `self` into `area` can turn the symbols `before`, in a
    /// buffer over `bounds`, into the symbols `after`.
    spec fn draws(
        &self,
        bounds: Area,
        area: Area,
        before: Seq<Seq<char>>,
        after: Seq<Seq<char>>,
    ) -> bool;

    /// Draws `self` into `area`. The buffer keeps its rectangle, and every
    /// cell outside `area` keeps its symbol.
    fn render(&self, area: Area, buf: &mut Buffer)
        requires
            area.valid(),
            intact(*old(buf)),
        ensures
            intact(*final(buf)),
            buffer_area(*final(buf)) == buffer_area(*old(buf)),
            self.draws(
                buffer_area(*old(buf)),
                area,
                buffer_cells(*old(buf)),
                buffer_cells(*final(buf)),
            ),
            kept_outside(
                buffer_area(*old(buf)),
                area,
                buffer_cells(*old(buf)),
                buffer_cells(*final(buf)),
            ),
    ;
}

/// Draws `widget` into a blank buffer that covers `area`.
pub fn draw<W: Render>(widget: &W, area: Area) -> (buf: Buffer)
    requires
        area.drawable(),
    ensures
        intact(buf),
        buffer_area(buf) == area,
        widget.draws(area, area, blank_cells(area), buffer_cells(buf)),
{
    let mut buf: Buffer = blank_buffer(area);
    widget.render(area, &mut buf);
    buf
}

/// The frame around a text.
pub enum Frame {
    Absent,
    Plain,
    Titled(Seq<char>),
}

/// What a `Text` holds.
pub struct TextView {
    pub text: Seq<char>,
    pub centered: bool,
    pub bordered: bool,
    pub border_title: Option<Seq<char>>,
    pub border_styles: Seq<Seq<char>>,
}

/// The part of `content` that is drawn: all of it, up to `TEXT_LIMIT` characters.
pub open spec fn drawn_part(content: Seq<char>) -> Seq<char> {
    if content.len() <= TEXT_LIMIT {
        content
    } else {
        content.subrange(0, TEXT_LIMIT as int)
    }
}

/// The part of `content` that is drawn.
pub fn cut_to_limit(content: &str) -> (part: &str)
    ensures
        part@ == drawn_part(content@),
        part@.len() <= TEXT_LIMIT,
{
    if content.unicode_len() <= TEXT_LIMIT {
        content
    } else {
        content.substring_char(0, TEXT_LIMIT)
    }
}

/// Whether the symbols `after` of a buffer over `bounds` show a frame round
/// the part of `area` that the buffer covers: each cell on the edge of that
/// part holds the glyph of its corner or side. With `but_title` the cells
/// that carry the title, in the first row between the two corners, are left out.
pub open spec fn frame_stands(
    bounds: Area,
    area: Area,
    after: Seq<Seq<char>>,
    but_title: bool,
) -> bool {
    area.overlap(bounds) matches Some(part) ==> forall|i: int|
        0 <= i < after.len() && !(but_title && in_title_span(bounds, area, i)) ==> (frame_glyph(
            part,
            cell_x(bounds, i),
            cell_y(bounds, i),
        ) matches Some(glyph) ==> (#[trigger] after[i]) == seq![glyph])
}

/// The width of `content` in columns, as far as a coordinate can count.
pub open spec fn columns(content: Seq<char>) -> int {
    if text_width(content) > u16::MAX {
        u16::MAX as int
    } else {
        text_width(content) as int
    }
}

impl TextView {
    /// The frame that is drawn: none unless the text is bordered; with the
    /// title, as far as it is drawn, where there is one and that is less than
    /// `u16::MAX` columns wide.
    pub open spec fn frame(self) -> Frame {
        if !self.bordered {
            Frame::Absent
        } else {
            match self.border_title {
                Some(title) if line_width(drawn_part(title)) < u16::MAX => Frame::Titled(
                    drawn_part(title),
                ),
                _ => Frame::Plain,
            }
        }
    }

    /// The symbols after the content has been drawn into `spot`.
    pub open spec fn written(self, bounds: Area, spot: Area, before: Seq<Seq<char>>) -> Seq<
        Seq<char>,
    > {
        text_painted(before, bounds, spot, drawn_part(self.text))
    }

    /// Whether `spot` is where the content goes when the text is drawn into
    /// `area`: a box one line high and as wide as the content that is drawn,
    /// centred in `area`, if the text is centred, and `area` itself if not.
    pub open spec fn places(self, area: Area, spot: Area) -> bool {
        if self.centered {
            is_centered(area, columns(drawn_part(self.text)), 1, spot)
        } else {
            spot == area
        }
    }

    /// The symbols after the content has been drawn into `spot` and then the
    /// frame, if any, round the whole of `area`.
    pub open spec fn inked(
        self,
        bounds: Area,
        area: Area,
        spot: Area,
        before: Seq<Seq<char>>,
    ) -> Seq<Seq<char>> {
        let written = self.written(bounds, spot, before);
        match self.frame() {
            Frame::Absent => written,
            Frame::Plain => framed(written, bounds, area),
            Frame::Titled(title) => titled_frame_painted(written, bounds, area, title),
        }
    }

    /// Whether the content drawn into `spot` and then the frame round `area`
    /// can turn `before` into `after`. The content changes no cell outside
    /// `spot`. A frame with a title leaves every cell as a plain frame does,
    /// but those that carry the title.
    pub open spec fn draws_at(
        self,
        bounds: Area,
        area: Area,
        spot: Area,
        before: Seq<Seq<char>>,
        after: Seq<Seq<char>>,
    ) -> bool {
        let written = self.written(bounds, spot, before);
        &&& after == self.inked(bounds, area, spot, before)
        &&& kept_outside(bounds, spot, before, written)
        &&& self.frame() is Titled ==> forall|i: int|
            0 <= i < after.len() && !in_title_span(bounds, area, i) ==> (#[trigger] after[i])
                == framed(written, bounds, area)[i]
    }

    /// Whether drawing the text into `area` can turn `before` into `after`:
    /// `after` is what the content in its spot and then the frame leave, and
    /// a frame stands round the whole of `area` wherever the content went.
    pub open spec fn draws(
        self,
        bounds: Area,
        area: Area,
        before: Seq<Seq<char>>,
        after: Seq<Seq<char>>,
    ) -> bool {
        &&& exists|spot: Area|
            #![trigger self.places(area, spot)]
            self.places(area, spot) && self.draws_at(bounds, area, spot, before, after)
        &&& self.bordered ==> frame_stands(bounds, area, after, self.frame() is Titled)
    }
}

/// The options of a text, named.
pub struct TextOptions {
    pub centered: bool,
    pub bordered: bool,
    pub border_title: Option<String>,
}

/// A text to draw, with its options.
pub struct Text {
    text: String,
    centered: bool,
    bordered: bool,
    border_title: Option<String>,
    border_styles: Vec<String>,
}

impl View for Text {
    type V = TextView;

    closed spec fn view(&self) -> TextView {
        TextView {
            text: self.text@,
            centered: self.centered,
            bordered: self.bordered,
            border_title: self.border_title.deep_view(),
            border_styles: self.border_styles.deep_view(),
        }
    }
}

impl Default for Text {
    /// The empty text, with no option set.
    fn default() -> (text: Self)
        ensures
            text@ == (TextView {
                text: Seq::empty(),
                centered: false,
                bordered: false,
                border_title: None,
                border_styles: Seq::empty(),
            }),
    {
        let text = Text {
            text: String::new(),
            centered: false,
            bordered: false,
            border_title: None,
            border_styles: Vec::new(),
        };
        assert(text.border_styles.deep_view() =~= Seq::empty());
        text
    }
}

impl Text {
    /// The text `text`, with no option set.
    pub fn new(text: &str) -> (this: Self)
        ensures
            this@ == (TextView {
                text: text@,
                centered: false,
                bordered: false,
                border_title: None,
                border_styles: Seq::empty(),
            }),
    {
        let mut this = Self::default();
        this.text = text.to_owned();
        this
    }

    /// A text with all its options given at once.
    pub fn with_options(text: &str, options: TextOptions) -> (this: Self)
        ensures
            this@ == (TextView {
                text: text@,
                centered: options.centered,
                bordered: options.bordered,
                border_title: options.border_title.deep_view(),
                border_styles: Seq::empty(),
            }),
    {
        let mut this = Self::new(text);
        this.centered = options.centered;
        this.bordered = options.bordered;
        this.border_title = options.border_title;
        this
    }

    /// The same text, centred in its area.
    pub fn centered(self) -> (this: Self)
        ensures
            this@ == (TextView { centered: true, ..self@ }),
    {
        let mut this = self;
        this.centered = true;
        this
    }

    /// The same text, with `title` for its frame.
    pub fn with_border_title(self, title: &str) -> (this: Self)
        ensures
            this@ == (TextView { border_title: Some(title@), ..self@ }),
    {
        let mut this = self;
        this.border_title = Some(title.to_owned());
        this
    }

    /// The same text in a frame. The styles are kept with the text.
    pub fn bordered(self, styles: &[String]) -> (this: Self)
        ensures
            this@ == (TextView { bordered: true, border_styles: styles.deep_view(), ..self@ }),
    {
        let mut kept: Vec<String> = Vec::new();
        let mut i: usize = 0;
        while i < styles.len()
            invariant
                i <= styles.len(),
                kept@.len() == i,
                forall|k: int| 0 <= k < i ==> (#[trigger] kept@[k])@ == styles@[k]@,
            decreases styles.len() - i,
        {
            kept.push(styles[i].clone());
            i = i + 1;
        }
        assert(kept.deep_view() =~= styles.deep_view());
        let mut this = self;
        this.bordered = true;
        this.border_styles = kept;
        this
    }

    /// Where the content goes when the text is drawn into `area`.
    pub fn spot(&self, area: Area) -> (spot: Area)
        requires
            area.valid(),
        ensures
            self@.places(area, spot),
            spot.valid(),
    {
        if self.centered {
            let width: usize = measure_text(cut_to_limit(self.text.as_str()));
            let wide: u16 = if width > u16::MAX as usize {
                u16::MAX
            } else {
                width as u16
            };
            center(area, wide, 1)
        } else {
            area
        }
    }
}

impl Render for Text {
    /// The content is drawn first, then the frame over it.
    open spec fn draws(
        &self,
        bounds: Area,
        area: Area,
        before: Seq<Seq<char>>,
        after: Seq<Seq<char>>,
    ) -> bool {
        self@.draws(bounds, area, before, after)
    }

    fn render(&self, area: Area, buf: &mut Buffer) {
        let spot: Area = self.spot(area);
        paint_text(buf, spot, cut_to_limit(self.text.as_str()));
        if self.bordered {
            match &self.border_title {
                Some(title) => {
                    let drawn: &str = cut_to_limit(title.as_str());
                    if measure_line(drawn) < u16::MAX as usize {
                        paint_titled_frame(buf, area, drawn);
                    } else {
                        paint_frame(buf, area);
                    }
                },
                None => {
                    paint_frame(buf, area);
                },
            }
        }
        assert(self@.places(area, spot) && self@.draws_at(
            buffer_area(*old(buf)),
            area,
            spot,
            buffer_cells(*old(buf)),
            buffer_cells(*buf),
        ));
    }
}

/// What a `CardSide` holds.
pub struct CardSideView {
    pub deck_title: Option<Seq<char>>,
    pub front: Seq<char>,
    pub back: Seq<char>,
    pub revealed: bool,
}

impl CardSideView {
    /// The side that shows: the front until the card is revealed, the back after.
    pub open spec fn displayed(self) -> Seq<char> {
        if self.revealed {
            self.back
        } else {
            self.front
        }
    }

    /// The text that draws the card side: the side that shows, centred in a
    /// frame that carries the deck's title.
    pub open spec fn as_text(self) -> TextView {
        TextView {
            text: self.displayed(),
            centered: true,
            bordered: true,
            border_title: self.deck_title,
            border_styles: Seq::empty(),
        }
    }
}

/// One card as it is shown: its two sides, the deck's title, and whether the
/// back has been revealed.
pub struct CardSide {
    deck_title: Option<String>,
    front: String,
    back: String,
    revealed: bool,
}

impl View for CardSide {
    type V = CardSideView;

    closed spec fn view(&self) -> CardSideView {
        CardSideView {
            deck_title: self.deck_title.deep_view(),
            front: self.front@,
            back: self.back@,
            revealed: self.revealed,
        }
    }
}

impl Clone for CardSide {
    /// A card side with the same content, title and face.
    fn clone(&self) -> (copy: Self)
        ensures
            copy@ == self@,
    {
        let deck_title: Option<String> = match &self.deck_title {
            Some(title) => Some(title.clone()),
            None => None,
        };
        CardSide {
            deck_title,
            front: self.front.clone(),
            back: self.back.clone(),
            revealed: self.revealed,
        }
    }
}

impl CardSide {
    /// A card side without a title, showing its front.
    pub fn new(front: String, back: String) -> (side: Self)
        ensures
            side@ == (CardSideView {
                deck_title: None,
                front: front@,
                back: back@,
                revealed: false,
            }),
    {
        Self { deck_title: None, front: front, back: back, revealed: false }
    }

    /// The same card side under the deck title `title`.
    pub fn with_title(self, title: &str) -> (side: Self)
        ensures
            side@ == (CardSideView { deck_title: Some(title@), ..self@ }),
    {
        let mut side = self;
        side.deck_title = Some(title.to_owned());
        side
    }

    /// Turns the card over: from now on the back shows.
    pub fn reveal_back(&mut self)
        ensures
            final(self)@ == (CardSideView { revealed: true, ..old(self)@ }),
    {
        self.revealed = true;
    }

    /// Whether the back shows.
    pub fn is_revealed(&self) -> (revealed: bool)
        ensures
            revealed == self@.revealed,
    {
        self.revealed
    }

    /// The side that shows.
    pub fn displayed(&self) -> (content: &str)
        ensures
            content@ == self@.displayed(),
    {
        if self.is_revealed() {
            self.back.as_str()
        } else {
            self.front.as_str()
        }
    }

    /// The text that draws this card side.
    pub fn to_text(&self) -> (text: Text)
        ensures
            text@ == self@.as_text(),
    {
        let none: Vec<String> = Vec::new();
        let styles: &[String] = none.as_slice();
        assert(styles.deep_view() =~= Seq::empty());
        let mut text: Text = Text::new(self.displayed()).bordered(styles).centered();
        if let Some(title) = self.deck_title.as_ref() {
            text = text.with_border_title(title.as_str());
        }
        text
    }
}

impl Render for CardSide {
    /// A card side is drawn as its text is.
    open spec fn draws(
        &self,
        bounds: Area,
        area: Area,
        before: Seq<Seq<char>>,
        after: Seq<Seq<char>>,
    ) -> bool {
        self@.as_text().draws(bounds, area, before, after)
    }

    fn render(&self, area: Area, buf: &mut Buffer) {
        let text: Text = self.to_text();
        text.render(area, buf)
    }
}

/// `part`, as far as `PARAGRAPH_LIMIT` columns go.
pub open spec fn narrowed(part: Area) -> Area {
    if part.width <= PARAGRAPH_LIMIT {
        part
    } else {
        Area { width: PARAGRAPH_LIMIT, ..part }
    }
}

/// `part`, as far as `PARAGRAPH_LIMIT` columns go.
pub fn narrow(part: Area) -> (narrow: Area)
    ensures
        narrow == narrowed(part),
{
    if part.width <= PARAGRAPH_LIMIT {
        part
    } else {
        Area { x: part.x, y: part.y, width: PARAGRAPH_LIMIT, height: part.height }
    }
}

/// The face of `pin` that shows: the front while its flag is set, else the back.
pub open spec fn pin_content<T: Kadeu>(pin: Pin<T>) -> Seq<char> {
    if pin.1 {
        pin.0.front_text()
    } else {
        pin.0.back_text()
    }
}

impl<T: Kadeu> Render for Pin<T> {
    /// The face that shows is drawn as a paragraph into the part of `area`
    /// that the buffer covers, as far as `PARAGRAPH_LIMIT` columns go; where
    /// there is no such part, nothing is drawn.
    open spec fn draws(
        &self,
        bounds: Area,
        area: Area,
        before: Seq<Seq<char>>,
        after: Seq<Seq<char>>,
    ) -> bool {
        match area.overlap(bounds) {
            Some(part) => after == paragraph_painted(
                before,
                bounds,
                narrowed(part),
                drawn_part(pin_content(*self)),
            ),
            None => after == before,
        }
    }

    fn render(&self, area: Area, buf: &mut Buffer) {
        let content: String = if self.1 {
            self.0.display_front()
        } else {
            self.0.display_back()
        };
        let bounds: Area = buffer_bounds(buf);
        if let Some(part) = area.clip(&bounds) {
            paint_paragraph(buf, narrow(part), cut_to_limit(content.as_str()));
        }
    }
}

/// What a `Container` holds.
pub struct ContainerView<T> {
    pub children: Seq<T>,
    pub axis: Axis,
}

/// Whether `stages` are what a buffer over `bounds` holds while `children`
/// are drawn one after the other, each into its region: the symbols before
/// the first child, then those that each child leaves. A child changes no
/// cell outside its region.
pub open spec fn drawn_in_turn<T: Render>(
    children: Seq<T>,
    regions: Seq<Area>,
    bounds: Area,
    stages: Seq<Seq<Seq<char>>>,
) -> bool {
    &&& stages.len() == children.len() + 1
    &&& forall|i: int, j: int|
        #![trigger stages[i], stages[j]]
        0 <= i < children.len() && j == i + 1 ==> children[i].draws(
            bounds,
            regions[i],
            stages[i],
            stages[j],
        ) && kept_outside(bounds, regions[i], stages[i], stages[j])
}

/// Children of one type, drawn side by side along an axis.
pub struct Container<T> {
    elements: Vec<Box<T>>,
    axis: Axis,
}

impl<T> View for Container<T> {
    type V = ContainerView<T>;

    closed spec fn view(&self) -> ContainerView<T> {
        ContainerView {
            children: Seq::new(self.elements@.len(), |i: int| *self.elements@[i]),
            axis: self.axis,
        }
    }
}

impl<T> Default for Container<T> {
    /// An empty container that lays out from left to right.
    fn default() -> (container: Self)
        ensures
            container@.children == Seq::<T>::empty(),
            container@.axis == Axis::Horizontal,
    {
        let container = Self { elements: Vec::new(), axis: Axis::Horizontal };
        assert(container@.children =~= Seq::<T>::empty());
        container
    }
}

impl<T> Container<T> {
    /// The regions for `cols` children in `area`, in their order: as long,
    /// taken together, as `area`, and no two differing by more than one cell.
    pub fn grid(area: Area, direction: Axis, cols: usize) -> (regions: Vec<Area>)
        requires
            area.valid(),
        ensures
            is_even_split(area, direction, cols as nat, regions@),
            cols >= 1 ==> total_extent(regions@, direction) == area.extent(direction),
    {
        split_evenly(area, direction, cols)
    }

    /// The same container, laying out along `axis`.
    pub fn along(self, axis: Axis) -> (container: Self)
        ensures
            container@ == (ContainerView { axis, ..self@ }),
    {
        let mut container = self;
        container.axis = axis;
        container
    }

    /// Adds `widget` behind the children that are there.
    pub fn push(&mut self, widget: T)
        ensures
            final(self)@ == (ContainerView {
                children: old(self)@.children.push(widget),
                ..old(self)@
            }),
    {
        self.elements.push(Box::new(widget));
        assert(self@.children =~= old(self)@.children.push(widget));
    }

    /// The number of children.
    pub fn len(&self) -> (count: usize)
        ensures
            count == self@.children.len(),
    {
        self.elements.len()
    }
}

impl<T: Render> Render for Container<T> {
    /// The area is cut into an even split, one region for each child, and the
    /// children are drawn into their regions in order.
    open spec fn draws(
        &self,
        bounds: Area,
        area: Area,
        before: Seq<Seq<char>>,
        after: Seq<Seq<char>>,
    ) -> bool {
        exists|regions: Seq<Area>, stages: Seq<Seq<Seq<char>>>|
            #![trigger drawn_in_turn(self@.children, regions, bounds, stages)]
            is_even_split(area, self@.axis, self@.children.len(), regions) && drawn_in_turn(
                self@.children,
                regions,
                bounds,
                stages,
            ) && stages.first() == before && stages.last() == after
    }

    fn render(&self, area: Area, buf: &mut Buffer) {
        let count: usize = self.elements.len();
        let regions: Vec<Area> = Self::grid(area, self.axis, count);
        let ghost bounds = buffer_area(*buf);
        let ghost mut stages: Seq<Seq<Seq<char>>> = seq![buffer_cells(*buf)];
        let mut i: usize = 0;
        while i < count
            invariant
                i <= count,
                count == self.elements@.len(),
                count == self@.children.len(),
                area.valid(),
                is_even_split(area, self@.axis, count as nat, regions@),
                intact(*buf),
                buffer_area(*buf) == bounds,
                kept_outside(bounds, area, buffer_cells(*old(buf)), buffer_cells(*buf)),
                stages.len() == i + 1,
                stages[0] == buffer_cells(*old(buf)),
                stages[i as int] == buffer_cells(*buf),
                forall|a: int, b: int|
                    #![trigger stages[a], stages[b]]
                    0 <= a < i && b == a + 1 ==> self@.children[a].draws(
                        bounds,
                        regions@[a],
                        stages[a],
                        stages[b],
                    ) && kept_outside(bounds, regions@[a], stages[a], stages[b]),
            decreases count - i,
        {
            proof {
                lemma_even_split_regions_valid(area, self@.axis, count as nat, regions@, i as int);
                lemma_even_split_regions_inside(area, self@.axis, count as nat, regions@, i as int);
            }
            self.elements[i].render(regions[i], buf);
            proof {
                assert(self@.children[i as int] == *self.elements@[i as int]);
                stages = stages.push(buffer_cells(*buf));
            }
            i = i + 1;
        }
        assert(drawn_in_turn(self@.children, regions@, bounds, stages));
    }
}

} // verus!
