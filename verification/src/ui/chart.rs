//! The price chart of a watch: the option that the chart library is given. Colors come
//! from the theme.

use vstd::prelude::*;
use crate::deal::{WatchPricePoint, WatchPricePointView};
use crate::decimal::{canonical, plain_text, Decimal};
use crate::json::{add_field, list, number, object, text, text_list, texts, Json, JsonView};
use crate::text::{nat_text, push_text};

verus! {

/// The colors of the theme.
#[derive(Debug, PartialEq, Eq)]
pub struct ChartColors {
    pub text: String,
    pub muted: String,
    pub line: String,
    pub panel: String,
    pub accent: String,
}

/// What `ChartColors` holds.
#[verifier::ext_equal]
pub struct ChartColorsView {
    pub text: Seq<char>,
    pub muted: Seq<char>,
    pub line: Seq<char>,
    pub panel: Seq<char>,
    pub accent: Seq<char>,
}

impl DeepView for ChartColors {
    type V = ChartColorsView;

    open spec fn deep_view(&self) -> ChartColorsView {
        ChartColorsView {
            text: self.text@,
            muted: self.muted@,
            line: self.line@,
            panel: self.panel@,
            accent: self.accent@,
        }
    }
}

impl Default for ChartColors {
    fn default() -> (r: Self)
        ensures
            r.deep_view() == (ChartColorsView {
                text: Seq::empty(),
                muted: Seq::empty(),
                line: Seq::empty(),
                panel: Seq::empty(),
                accent: Seq::empty(),
            }),
    {
        ChartColors {
            text: String::new(),
            muted: String::new(),
            line: String::new(),
            panel: String::new(),
            accent: String::new(),
        }
    }
}

/// A field that holds a text.
pub open spec fn text_field(key: Seq<char>, value: Seq<char>) -> (Seq<char>, JsonView) {
    (key, JsonView::Text(value))
}

/// An object with a color.
pub open spec fn colored(color: Seq<char>) -> JsonView {
    JsonView::Object(seq![text_field("color"@, color)])
}

/// A number.
pub open spec fn whole(n: nat) -> JsonView {
    JsonView::Number(nat_text(n))
}

/// An amount of cents in major units, with at least one decimal.
pub open spec fn euros(cents: i64) -> JsonView {
    let d = canonical(cents as int, -2);
    JsonView::Number(
        if d.1 >= 0 {
            plain_text(d) + ".0"@
        } else {
            plain_text(d)
        },
    )
}

fn write_euros(cents: i64) -> (r: Json)
    ensures
        r.deep_view() == euros(cents),
{
    let d = Decimal::from_scaled(cents, -2);
    let mut written = d.to_text();
    if d.is_whole() {
        written.append(".0");
    }
    Json::Number(written)
}

/// A line of the chart.
pub open spec fn series(name: Seq<char>, data: Seq<JsonView>, color: Seq<char>) -> JsonView {
    JsonView::Object(
        seq![
            text_field("name"@, name),
            text_field("type"@, "line"@),
            ("data"@, JsonView::List(data)),
            ("showSymbol"@, JsonView::Bool(false)),
            (
                "lineStyle"@,
                JsonView::Object(seq![("width"@, whole(2)), text_field("color"@, color)]),
            ),
            ("itemStyle"@, colored(color)),
        ],
    )
}

/// The zoom: the wheel zooms around the cursor, a drag pans, the wheel never pans.
pub open spec fn zoom() -> JsonView {
    JsonView::List(
        seq![
            JsonView::Object(
                seq![
                    text_field("type"@, "inside"@),
                    ("xAxisIndex"@, whole(0)),
                    ("zoomOnMouseWheel"@, JsonView::Bool(true)),
                    ("moveOnMouseMove"@, JsonView::Bool(true)),
                    ("moveOnMouseWheel"@, JsonView::Bool(false)),
                ],
            ),
        ],
    )
}

/// The place of the drawing.
pub open spec fn grid() -> JsonView {
    JsonView::Object(
        seq![
            ("left"@, whole(60)),
            ("right"@, whole(16)),
            ("top"@, whole(30)),
            ("bottom"@, whole(24)),
        ],
    )
}

/// The legend.
pub open spec fn legend(colors: ChartColorsView) -> JsonView {
    JsonView::Object(
        seq![
            ("data"@, text_list(seq!["best"@, "median"@])),
            ("textStyle"@, colored(colors.muted)),
            ("top"@, whole(0)),
        ],
    )
}

/// The tooltip.
pub open spec fn tooltip(colors: ChartColorsView) -> JsonView {
    JsonView::Object(
        seq![
            text_field("trigger"@, "axis"@),
            text_field("backgroundColor"@, colors.panel),
            text_field("borderColor"@, colors.line),
            ("textStyle"@, colored(colors.text)),
            ("valueFormatter"@, JsonView::Null),
        ],
    )
}

/// The axis of the days.
pub open spec fn x_axis(days: Seq<Seq<char>>, colors: ChartColorsView) -> JsonView {
    JsonView::Object(
        seq![
            text_field("type"@, "category"@),
            ("data"@, text_list(days)),
            ("axisLine"@, JsonView::Object(seq![("lineStyle"@, colored(colors.line))])),
            ("axisLabel"@, colored(colors.muted)),
        ],
    )
}

/// The axis of the prices, zoomed to their range.
pub open spec fn y_axis(colors: ChartColorsView) -> JsonView {
    JsonView::Object(
        seq![
            text_field("type"@, "value"@),
            ("scale"@, JsonView::Bool(true)),
            (
                "axisLabel"@,
                JsonView::Object(
                    seq![
                        text_field("color"@, colors.muted),
                        text_field("formatter"@, "{value} €"@),
                    ],
                ),
            ),
            ("splitLine"@, JsonView::Object(seq![("lineStyle"@, colored(colors.line))])),
        ],
    )
}

/// The option of a chart: one axis, two lines. "best" is the price that one could pay that
/// day, "median" the market.
pub open spec fn option_of(points: Seq<WatchPricePointView>, colors: ChartColorsView) -> JsonView {
    JsonView::Object(
        seq![
            text_field("backgroundColor"@, "transparent"@),
            ("grid"@, grid()),
            ("legend"@, legend(colors)),
            ("tooltip"@, tooltip(colors)),
            ("xAxis"@, x_axis(Seq::new(points.len(), |i: int| points[i].day), colors)),
            ("yAxis"@, y_axis(colors)),
            ("dataZoom"@, zoom()),
            (
                "series"@,
                JsonView::List(
                    seq![
                        series(
                            "best"@,
                            Seq::new(points.len(), |i: int| euros(points[i].min_cents)),
                            colors.accent,
                        ),
                        series(
                            "median"@,
                            Seq::new(points.len(), |i: int| euros(points[i].median_cents)),
                            colors.muted,
                        ),
                    ],
                ),
            ),
        ],
    )
}

fn colored_json(color: &str) -> (r: Json)
    ensures
        r.deep_view() == colored(color@),
{
    let mut f: Vec<(String, Json)> = Vec::new();
    add_field(&mut f, "color", text(color));
    assert(f.deep_view() =~= colored(color@)->Object_0);
    object(f)
}

fn line_style(key: &str, color: &str) -> (r: Json)
    ensures
        r.deep_view() == JsonView::Object(seq![(key@, colored(color@))]),
{
    let mut f: Vec<(String, Json)> = Vec::new();
    add_field(&mut f, key, colored_json(color));
    assert(f.deep_view() =~= seq![(key@, colored(color@))]);
    object(f)
}

fn series_json(name: &str, data: Vec<Json>, color: &str) -> (r: Json)
    ensures
        r.deep_view() == series(name@, data.deep_view(), color@),
{
    let ghost items = data.deep_view();
    let mut style: Vec<(String, Json)> = Vec::new();
    add_field(&mut style, "width", number(2));
    add_field(&mut style, "color", text(color));
    assert(style.deep_view() =~= seq![("width"@, whole(2)), text_field("color"@, color@)]);
    let mut f: Vec<(String, Json)> = Vec::new();
    add_field(&mut f, "name", text(name));
    add_field(&mut f, "type", text("line"));
    add_field(&mut f, "data", list(data));
    add_field(&mut f, "showSymbol", Json::Bool(false));
    add_field(&mut f, "lineStyle", object(style));
    add_field(&mut f, "itemStyle", colored_json(color));
    assert(f.deep_view() =~= series(name@, items, color@)->Object_0);
    object(f)
}

/// The zoom of a chart.
pub fn inside_zoom() -> (r: Json)
    ensures
        r.deep_view() == zoom(),
{
    let mut f: Vec<(String, Json)> = Vec::new();
    add_field(&mut f, "type", text("inside"));
    add_field(&mut f, "xAxisIndex", number(0));
    add_field(&mut f, "zoomOnMouseWheel", Json::Bool(true));
    add_field(&mut f, "moveOnMouseMove", Json::Bool(true));
    add_field(&mut f, "moveOnMouseWheel", Json::Bool(false));
    let one = object(f);
    let mut items: Vec<Json> = Vec::new();
    items.push(one);
    assert(one.deep_view()->Object_0 =~= zoom()->List_0[0]->Object_0);
    assert(items.deep_view() =~= zoom()->List_0);
    list(items)
}

fn grid_json() -> (r: Json)
    ensures
        r.deep_view() == grid(),
{
    let mut f: Vec<(String, Json)> = Vec::new();
    add_field(&mut f, "left", number(60));
    add_field(&mut f, "right", number(16));
    add_field(&mut f, "top", number(30));
    add_field(&mut f, "bottom", number(24));
    assert(f.deep_view() =~= grid()->Object_0);
    object(f)
}

fn legend_json(colors: &ChartColors) -> (r: Json)
    ensures
        r.deep_view() == legend(colors.deep_view()),
{
    let mut names: Vec<String> = Vec::new();
    push_text(&mut names, "best");
    push_text(&mut names, "median");
    assert(names.deep_view() =~= seq!["best"@, "median"@]);
    let mut f: Vec<(String, Json)> = Vec::new();
    add_field(&mut f, "data", texts(&names));
    add_field(&mut f, "textStyle", colored_json(colors.muted.as_str()));
    add_field(&mut f, "top", number(0));
    assert(f.deep_view() =~= legend(colors.deep_view())->Object_0);
    object(f)
}

fn tooltip_json(colors: &ChartColors) -> (r: Json)
    ensures
        r.deep_view() == tooltip(colors.deep_view()),
{
    let mut f: Vec<(String, Json)> = Vec::new();
    add_field(&mut f, "trigger", text("axis"));
    add_field(&mut f, "backgroundColor", text(colors.panel.as_str()));
    add_field(&mut f, "borderColor", text(colors.line.as_str()));
    add_field(&mut f, "textStyle", colored_json(colors.text.as_str()));
    add_field(&mut f, "valueFormatter", Json::Null);
    assert(f.deep_view() =~= tooltip(colors.deep_view())->Object_0);
    object(f)
}

fn x_axis_json(days: &Vec<String>, colors: &ChartColors) -> (r: Json)
    ensures
        r.deep_view() == x_axis(days.deep_view(), colors.deep_view()),
{
    let mut f: Vec<(String, Json)> = Vec::new();
    add_field(&mut f, "type", text("category"));
    add_field(&mut f, "data", texts(days));
    add_field(&mut f, "axisLine", line_style("lineStyle", colors.line.as_str()));
    add_field(&mut f, "axisLabel", colored_json(colors.muted.as_str()));
    assert(f.deep_view() =~= x_axis(days.deep_view(), colors.deep_view())->Object_0);
    object(f)
}

fn y_axis_json(colors: &ChartColors) -> (r: Json)
    ensures
        r.deep_view() == y_axis(colors.deep_view()),
{
    let ghost c = colors.deep_view();
    let mut label: Vec<(String, Json)> = Vec::new();
    add_field(&mut label, "color", text(colors.muted.as_str()));
    add_field(&mut label, "formatter", text("{value} €"));
    assert(label.deep_view() =~= seq![
        text_field("color"@, c.muted),
        text_field("formatter"@, "{value} €"@),
    ]);
    let mut f: Vec<(String, Json)> = Vec::new();
    add_field(&mut f, "type", text("value"));
    add_field(&mut f, "scale", Json::Bool(true));
    add_field(&mut f, "axisLabel", object(label));
    add_field(&mut f, "splitLine", line_style("lineStyle", colors.line.as_str()));
    assert(f.deep_view() =~= y_axis(c)->Object_0);
    object(f)
}

fn days_of_points(points: &Vec<WatchPricePoint>) -> (r: Vec<String>)
    ensures
        r.deep_view() == Seq::new(points@.len(), |i: int| points.deep_view()[i].day),
{
    let ghost all = Seq::new(points@.len(), |i: int| points.deep_view()[i].day);
    let mut out: Vec<String> = Vec::new();
    let mut i: usize = 0;
    assert(out.deep_view() =~= all.take(0));
    while i < points.len()
        invariant
            i <= points@.len(),
            all == Seq::new(points@.len(), |i: int| points.deep_view()[i].day),
            out.deep_view() == all.take(i as int),
        decreases points@.len() - i,
    {
        push_text(&mut out, points[i].day.as_str());
        i = i + 1;
        assert(out.deep_view() =~= all.take(i as int));
    }
    assert(all.take(all.len() as int) =~= all);
    out
}

/// The best prices, or the medians, of the days.
fn line_of_points(points: &Vec<WatchPricePoint>, best: bool) -> (r: Vec<Json>)
    ensures
        r.deep_view() == Seq::new(
            points@.len(),
            |i: int|
                euros(
                    if best {
                        points.deep_view()[i].min_cents
                    } else {
                        points.deep_view()[i].median_cents
                    },
                ),
        ),
{
    let ghost all = Seq::new(
        points@.len(),
        |i: int|
            euros(
                if best {
                    points.deep_view()[i].min_cents
                } else {
                    points.deep_view()[i].median_cents
                },
            ),
    );
    let mut out: Vec<Json> = Vec::new();
    let mut i: usize = 0;
    assert(out.deep_view() =~= all.take(0));
    while i < points.len()
        invariant
            i <= points@.len(),
            all == Seq::new(
                points@.len(),
                |i: int|
                    euros(
                        if best {
                            points.deep_view()[i].min_cents
                        } else {
                            points.deep_view()[i].median_cents
                        },
                    ),
            ),
            out.deep_view() == all.take(i as int),
        decreases points@.len() - i,
    {
        let ghost before = out.deep_view();
        let cents: i64 = if best {
            points[i].min_cents
        } else {
            points[i].median_cents
        };
        let item = write_euros(cents);
        out.push(item);
        assert(out.deep_view() =~= before.push(item.deep_view()));
        i = i + 1;
        assert(out.deep_view() =~= all.take(i as int));
    }
    assert(all.take(all.len() as int) =~= all);
    out
}

/// The option of a chart.
pub fn chart_option(points: &Vec<WatchPricePoint>, colors: &ChartColors) -> (r: Json)
    ensures
        r.deep_view() == option_of(points.deep_view(), colors.deep_view()),
{
    let ghost p = points.deep_view();
    let ghost c = colors.deep_view();
    let best = line_of_points(points, true);
    assert(best.deep_view() =~= Seq::new(p.len(), |i: int| euros(p[i].min_cents)));
    let median = line_of_points(points, false);
    assert(median.deep_view() =~= Seq::new(p.len(), |i: int| euros(p[i].median_cents)));
    let days = days_of_points(points);
    assert(days.deep_view() =~= Seq::new(p.len(), |i: int| p[i].day));
    let mut lines: Vec<Json> = Vec::new();
    lines.push(series_json("best", best, colors.accent.as_str()));
    lines.push(series_json("median", median, colors.muted.as_str()));
    assert(lines.deep_view() =~= seq![
        series("best"@, Seq::new(p.len(), |i: int| euros(p[i].min_cents)), c.accent),
        series("median"@, Seq::new(p.len(), |i: int| euros(p[i].median_cents)), c.muted),
    ]);
    let mut f: Vec<(String, Json)> = Vec::new();
    add_field(&mut f, "backgroundColor", text("transparent"));
    add_field(&mut f, "grid", grid_json());
    add_field(&mut f, "legend", legend_json(colors));
    add_field(&mut f, "tooltip", tooltip_json(colors));
    add_field(&mut f, "xAxis", x_axis_json(&days, colors));
    add_field(&mut f, "yAxis", y_axis_json(colors));
    add_field(&mut f, "dataZoom", inside_zoom());
    add_field(&mut f, "series", list(lines));
    assert(f.deep_view() =~= option_of(p, c)->Object_0);
    object(f)
}

/// What stands in place of a chart: none where there are days enough for one.
pub open spec fn chart_note(loaded: Option<Result<nat, Seq<char>>>) -> Option<Seq<char>> {
    match loaded {
        None => Some("Loading price history…"@),
        Some(Err(e)) => Some("history unavailable: "@ + e),
        Some(Ok(n)) => if n >= 2 {
            None
        } else {
            Some(
                "Not enough history yet — the chart appears after a couple of days of observations."@,
            )
        },
    }
}

/// What stands in place of a chart.
pub fn chart_placeholder(loaded: Option<Result<usize, String>>) -> (r: Option<String>)
    ensures
        r.deep_view() == chart_note(crate::ui::cards::loaded_view(loaded)),
{
    match loaded {
        None => Some("Loading price history…".to_owned()),
        Some(Err(e)) => {
            let mut m = "history unavailable: ".to_owned();
            m.append(e.as_str());
            Some(m)
        },
        Some(Ok(n)) => {
            if n >= 2 {
                None
            } else {
                Some(
                    "Not enough history yet — the chart appears after a couple of days of observations.".to_owned(),
                )
            }
        },
    }
}

/// The chart draws every day: its date on the axis, its best price on the first line and
/// its median on the second.
pub proof fn every_day_is_drawn(points: Seq<WatchPricePointView>, colors: ChartColorsView)
    ensures
        option_of(points, colors) matches JsonView::Object(fields) && fields.len() == 8 && fields[4]
            == ("xAxis"@, x_axis(points.map_values(|p: WatchPricePointView| p.day), colors))
            && fields[7] == (
            "series"@,
            JsonView::List(
                seq![
                    series(
                        "best"@,
                        points.map_values(|p: WatchPricePointView| euros(p.min_cents)),
                        colors.accent,
                    ),
                    series(
                        "median"@,
                        points.map_values(|p: WatchPricePointView| euros(p.median_cents)),
                        colors.muted,
                    ),
                ],
            ),
        ),
{
    assert(Seq::new(points.len(), |i: int| points[i].day) =~= points.map_values(
        |p: WatchPricePointView| p.day,
    ));
    assert(Seq::new(points.len(), |i: int| euros(points[i].min_cents)) =~= points.map_values(
        |p: WatchPricePointView| euros(p.min_cents),
    ));
    assert(Seq::new(points.len(), |i: int| euros(points[i].median_cents)) =~= points.map_values(
        |p: WatchPricePointView| euros(p.median_cents),
    ));
}

/// A chart needs two days; before it has them, and where they cannot be had, a note stands
/// in its place.
pub proof fn charts_need_two_days(n: nat, e: Seq<char>)
    ensures
        chart_note(None) == Some("Loading price history…"@),
        chart_note(Some(Err(e))) == Some("history unavailable: "@ + e),
        chart_note(Some(Ok(n))) is None <==> n >= 2,
        n < 2 ==> chart_note(Some(Ok(n))) == Some(
            "Not enough history yet — the chart appears after a couple of days of observations."@,
        ),
{
}

/// How the chart looks: its place, its legend, its tooltip and its axes, in the colors
/// given.
pub proof fn the_chart_has_its_parts(
    points: Seq<WatchPricePointView>,
    colors: ChartColorsView,
    days: Seq<Seq<char>>,
)
    ensures
        option_of(points, colors) matches JsonView::Object(fields) && fields[0] == (
            "backgroundColor"@,
            JsonView::Text("transparent"@),
        ) && fields[1] == ("grid"@, grid()) && fields[2] == ("legend"@, legend(colors)) && fields[3]
            == ("tooltip"@, tooltip(colors)) && fields[5] == ("yAxis"@, y_axis(colors)) && fields[6]
            == ("dataZoom"@, zoom()),
        grid() == JsonView::Object(
            seq![
                ("left"@, JsonView::Number(nat_text(60))),
                ("right"@, JsonView::Number(nat_text(16))),
                ("top"@, JsonView::Number(nat_text(30))),
                ("bottom"@, JsonView::Number(nat_text(24))),
            ],
        ),
        legend(colors) == JsonView::Object(
            seq![
                ("data"@, text_list(seq!["best"@, "median"@])),
                (
                    "textStyle"@,
                    JsonView::Object(seq![("color"@, JsonView::Text(colors.muted))]),
                ),
                ("top"@, JsonView::Number(nat_text(0))),
            ],
        ),
        tooltip(colors) == JsonView::Object(
            seq![
                ("trigger"@, JsonView::Text("axis"@)),
                ("backgroundColor"@, JsonView::Text(colors.panel)),
                ("borderColor"@, JsonView::Text(colors.line)),
                (
                    "textStyle"@,
                    JsonView::Object(seq![("color"@, JsonView::Text(colors.text))]),
                ),
                ("valueFormatter"@, JsonView::Null),
            ],
        ),
        x_axis(days, colors) == JsonView::Object(
            seq![
                ("type"@, JsonView::Text("category"@)),
                ("data"@, text_list(days)),
                (
                    "axisLine"@,
                    JsonView::Object(
                        seq![
                            (
                                "lineStyle"@,
                                JsonView::Object(
                                    seq![("color"@, JsonView::Text(colors.line))],
                                ),
                            ),
                        ],
                    ),
                ),
                (
                    "axisLabel"@,
                    JsonView::Object(seq![("color"@, JsonView::Text(colors.muted))]),
                ),
            ],
        ),
{
}

/// Prices have their axis, which fits their range, and lines without symbols; the wheel
/// zooms and a drag pans.
pub proof fn prices_are_drawn_as_lines(
    colors: ChartColorsView,
    name: Seq<char>,
    data: Seq<JsonView>,
    color: Seq<char>,
)
    ensures
        y_axis(colors) == JsonView::Object(
            seq![
                ("type"@, JsonView::Text("value"@)),
                ("scale"@, JsonView::Bool(true)),
                (
                    "axisLabel"@,
                    JsonView::Object(
                        seq![
                            ("color"@, JsonView::Text(colors.muted)),
                            ("formatter"@, JsonView::Text("{value} €"@)),
                        ],
                    ),
                ),
                (
                    "splitLine"@,
                    JsonView::Object(
                        seq![
                            (
                                "lineStyle"@,
                                JsonView::Object(
                                    seq![("color"@, JsonView::Text(colors.line))],
                                ),
                            ),
                        ],
                    ),
                ),
            ],
        ),
        series(name, data, color) == JsonView::Object(
            seq![
                ("name"@, JsonView::Text(name)),
                ("type"@, JsonView::Text("line"@)),
                ("data"@, JsonView::List(data)),
                ("showSymbol"@, JsonView::Bool(false)),
                (
                    "lineStyle"@,
                    JsonView::Object(
                        seq![
                            ("width"@, JsonView::Number(nat_text(2))),
                            ("color"@, JsonView::Text(color)),
                        ],
                    ),
                ),
                ("itemStyle"@, JsonView::Object(seq![("color"@, JsonView::Text(color))])),
            ],
        ),
        zoom() == JsonView::List(
            seq![
                JsonView::Object(
                    seq![
                        ("type"@, JsonView::Text("inside"@)),
                        ("xAxisIndex"@, JsonView::Number(nat_text(0))),
                        ("zoomOnMouseWheel"@, JsonView::Bool(true)),
                        ("moveOnMouseMove"@, JsonView::Bool(true)),
                        ("moveOnMouseWheel"@, JsonView::Bool(false)),
                    ],
                ),
            ],
        ),
{
}

/// An amount is drawn in euros, with its cents or with one zero decimal.
pub proof fn amounts_are_drawn_in_euros(cents: i64)
    ensures
        euros(cents) matches JsonView::Number(n) && ({
            let d = canonical(cents as int, -2);
            &&& d.1 >= 0 ==> n == plain_text(d) + ".0"@
            &&& d.1 < 0 ==> n == plain_text(d)
        }),
{
}

} // verus!
