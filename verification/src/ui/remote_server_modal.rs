//! The dialog that shows how a device reaches the server.

use vstd::prelude::*;

use crate::remote_server::qr;
use crate::remote_server::server;
use crate::remote_server::server::ServerMode;
use crate::remote_server::server::ServerState;
use crate::text;

verus! {

/// A picture, with its pixels in the order blue, green, red and opacity.
#[derive(Debug)]
pub struct Picture {
    pub width: u32,
    pub height: u32,
    pub pixels: Vec<u8>,
}

/// The width, the height and the pixels of a PNG image as the crate `image` reads it, or why it
/// cannot be read. A pixel is red, green, blue and opacity.
pub uninterp spec fn png_pixels(png: Seq<u8>) -> Result<(u32, u32, Seq<u8>), Seq<char>>;

/// Reads a PNG image with `image::load_from_memory_with_format`: the result is the one that has the
/// name `png_pixels`, and there are four bytes for each pixel.
#[verifier::external_body]
fn read_png(png: &Vec<u8>) -> (r: Result<(u32, u32, Vec<u8>), String>)
    ensures
        match r {
            Ok((width, height, pixels)) => png_pixels(png@) == Ok::<
                (u32, u32, Seq<u8>),
                Seq<char>,
            >((width, height, pixels@)) && pixels@.len() == 4 * width * height,
            Err(e) => png_pixels(png@) == Err::<(u32, u32, Seq<u8>), Seq<char>>(e@),
        },
{
    let read = image::load_from_memory_with_format(png, image::ImageFormat::Png)
        .map_err(|e| e.to_string())?
        .into_rgba8();
    Ok((read.width(), read.height(), read.into_raw()))
}

/// Pixels with red and blue exchanged. What is left over at the end is no pixel.
pub open spec fn exchanged(pixels: Seq<u8>) -> Seq<u8> {
    Seq::new(
        pixels.len(),
        |i: int|
            if i / 4 * 4 + 4 > pixels.len() {
                pixels[i]
            } else if i % 4 == 0 {
                pixels[i + 2]
            } else if i % 4 == 2 {
                pixels[i - 2]
            } else {
                pixels[i]
            },
    )
}

/// Exchanges red and blue.
pub fn exchange(pixels: &mut Vec<u8>)
    ensures
        final(pixels)@ == exchanged(old(pixels)@),
{
    let ghost before = pixels@;
    let len: usize = pixels.len();
    let mut k: usize = 0;
    while len - k >= 4
        invariant
            k % 4 == 0,
            k <= len == pixels@.len() == before.len(),
            forall|i: int| 0 <= i < k ==> #[trigger] pixels@[i] == exchanged(before)[i],
            forall|i: int| k <= i < len ==> #[trigger] pixels@[i] == before[i],
        decreases len - k,
    {
        let first: u8 = pixels[k];
        let third: u8 = pixels[k + 2];
        pixels.set(k, third);
        pixels.set(k + 2, first);
        k = k + 4;
    }
    assert(pixels@ =~= exchanged(before)) by {
        assert forall|i: int| k <= i < len implies pixels@[i] == exchanged(before)[i] by {
            assert(i / 4 * 4 + 4 > len);
        }
    }
}

/// The address that the picture is of: that of the tunnel, as soon as there is one, with the token.
pub open spec fn picture_url(s: server::StateView) -> Seq<char> {
    match (s.mode, s.public_url) {
        (ServerMode::Internet, Some(url)) => url + "?token="@ + s.token,
        _ => s.pairing_url,
    }
}

/// The picture of an address, if there is one.
pub open spec fn picture_of(url: Seq<char>) -> Option<(u32, u32, Seq<u8>)> {
    match qr::code_png(url) {
        Ok(png) => match png_pixels(png) {
            Ok((width, height, pixels)) => Some((width, height, exchanged(pixels))),
            Err(_) => None,
        },
        Err(_) => None,
    }
}

/// A picture.
pub open spec fn picture_view(p: Option<Picture>) -> Option<(u32, u32, Seq<u8>)> {
    match p {
        Some(p) => Some((p.width, p.height, p.pixels@)),
        None => None,
    }
}

fn draw(url: &str) -> (r: Option<Picture>)
    ensures
        picture_view(r) == picture_of(url@),
{
    let png = match qr::generate_qr_code(url) {
        Ok(png) => png,
        Err(_) => return None,
    };
    match read_png(&png) {
        Ok((width, height, pixels)) => {
            let mut pixels = pixels;
            exchange(&mut pixels);
            Some(Picture { width, height, pixels })
        },
        Err(_) => None,
    }
}

/// Something that is shown under a label. `copies` is what a click puts on the clipboard.
#[derive(Debug)]
pub struct Section {
    pub label: String,
    pub value: String,
    pub copies: Option<String>,
}

/// Something that is shown under a label.
pub ghost struct SectionView {
    pub label: Seq<char>,
    pub value: Seq<char>,
    pub copies: Option<Seq<char>>,
}

impl View for Section {
    type V = SectionView;

    open spec fn view(&self) -> SectionView {
        SectionView {
            label: self.label@,
            value: self.value@,
            copies: text::opt_view(self.copies),
        }
    }
}

/// What is shown under labels.
pub open spec fn section_views(sections: Seq<Section>) -> Seq<SectionView> {
    sections.map_values(|s: Section| s@)
}

/// What the dialog shows. Below the sections comes the picture, or an icon in its place.
#[derive(Debug)]
pub struct Dialog {
    pub headline: String,
    pub intro: String,
    pub sections: Vec<Section>,
    pub has_picture: bool,
}

/// The headline.
pub open spec fn headline(mode: ServerMode) -> Seq<char> {
    match mode {
        ServerMode::Internet => "Remote Agent Server (Internet)"@,
        ServerMode::Local => "Remote Agent Server (Local Network)"@,
    }
}

/// What is said below the headline.
pub open spec fn intro(s: server::StateView) -> Seq<char> {
    match s.mode {
        ServerMode::Internet => if s.public_url is Some {
            "Your agent is accessible over the internet via cloudflared tunnel. Use the public URL below to connect from anywhere."@
        } else {
            "Starting cloudflared tunnel... This may take a moment."@
        },
        ServerMode::Local =>
            "Scan the QR code below or use the pairing URL to connect from your mobile device on the same network."@,
    }
}

/// The address that the server listens at, as it is shown.
pub open spec fn address_text(ip: Seq<char>, port: u16) -> Seq<char> {
    if text::holds(ip, ":"@) {
        "["@ + ip + "]:"@ + text::decimal(port as nat)
    } else {
        ip + ":"@ + text::decimal(port as nat)
    }
}

/// The address of the tunnel, with the token.
pub open spec fn public_section(s: server::StateView) -> Seq<SectionView> {
    match (s.mode, s.public_url) {
        (ServerMode::Internet, Some(url)) => seq![
            SectionView {
                label: "Public URL (Internet)"@,
                value: url + "?token="@ + s.token,
                copies: Some(url + "?token="@ + s.token),
            },
        ],
        _ => Seq::empty(),
    }
}

/// What is shown under labels.
pub open spec fn sections(s: server::StateView) -> Seq<SectionView> {
    seq![
        SectionView {
            label: "Server Address"@,
            value: address_text(s.ip, s.port),
            copies: None,
        },
    ] + public_section(s) + seq![
        SectionView {
            label: match s.mode {
                ServerMode::Internet => "Local URL"@,
                ServerMode::Local => "Pairing URL"@,
            },
            value: s.pairing_url,
            copies: Some(s.pairing_url),
        },
        SectionView { label: "Authentication Token"@, value: s.token, copies: None },
    ]
}

/// Whether what is known of the server changed.
pub open spec fn differs(a: server::StateView, b: server::StateView) -> bool {
    a.public_url != b.public_url || a.pairing_url != b.pairing_url || a.token != b.token
}

/// The dialog.
pub struct RemoteServerModal {
    pub server_state: ServerState,
    pub qr_image: Option<Picture>,
}

fn public_address(s: &ServerState) -> (r: Option<String>)
    ensures
        match (s@.mode, s@.public_url) {
            (ServerMode::Internet, Some(url)) => text::opt_view(r) == Some(
                url + "?token="@ + s@.token,
            ),
            _ => r is None,
        },
{
    match s.mode {
        ServerMode::Internet => match &s.public_url {
            Some(url) => {
                let mut out = url.clone();
                out.append("?token=");
                out.append(s.auth_token.as_str());
                Some(out)
            },
            None => None,
        },
        ServerMode::Local => None,
    }
}

fn picture_address(s: &ServerState) -> (r: String)
    ensures
        r@ == picture_url(s@),
{
    match public_address(s) {
        Some(url) => url,
        None => s.pairing_url.clone(),
    }
}

fn same_option(a: &Option<String>, b: &Option<String>) -> (r: bool)
    ensures
        r == (text::opt_view(*a) == text::opt_view(*b)),
{
    match (a, b) {
        (Some(x), Some(y)) => text::same(x.as_str(), y.as_str()),
        (None, None) => true,
        _ => false,
    }
}

impl RemoteServerModal {
    /// Shows a server, with a picture of its address.
    pub fn new(server_state: ServerState) -> (r: RemoteServerModal)
        ensures
            r.server_state == server_state,
            picture_view(r.qr_image) == picture_of(picture_url(server_state@)),
    {
        let url = picture_address(&server_state);
        let qr_image = draw(url.as_str());
        RemoteServerModal { server_state, qr_image }
    }

    /// Takes what is known of the server now; none, where it does not run. Says whether anything is
    /// to be shown anew.
    pub fn refresh(&mut self, updated: Option<ServerState>) -> (r: bool)
        ensures
            match updated {
                Some(s) => if differs(old(self).server_state@, s@) {
                    r && final(self).server_state == s && picture_view(final(self).qr_image)
                        == picture_of(picture_url(s@))
                } else {
                    !r && *final(self) == *old(self)
                },
                None => !r && *final(self) == *old(self),
            },
    {
        let s = match updated {
            Some(s) => s,
            None => return false,
        };
        let unchanged = same_option(&self.server_state.public_url, &s.public_url) && text::same(
            self.server_state.pairing_url.as_str(),
            s.pairing_url.as_str(),
        ) && text::same(self.server_state.auth_token.as_str(), s.auth_token.as_str());
        if unchanged {
            return false;
        }
        let url = picture_address(&s);
        self.qr_image = draw(url.as_str());
        self.server_state = s;
        true
    }

    /// What the dialog shows.
    pub fn render(&self) -> (r: Dialog)
        ensures
            r.headline@ == headline(self.server_state@.mode),
            r.intro@ == intro(self.server_state@),
            section_views(r.sections@) == sections(self.server_state@),
            r.has_picture == (self.qr_image is Some),
    {
        let s = &self.server_state;
        let (headline, local_label) = match s.mode {
            ServerMode::Internet => (
                "Remote Agent Server (Internet)".to_owned(),
                "Local URL".to_owned(),
            ),
            ServerMode::Local => (
                "Remote Agent Server (Local Network)".to_owned(),
                "Pairing URL".to_owned(),
            ),
        };
        let intro = match s.mode {
            ServerMode::Internet => if s.public_url.is_some() {
                "Your agent is accessible over the internet via cloudflared tunnel. Use the public URL below to connect from anywhere.".to_owned()
            } else {
                "Starting cloudflared tunnel... This may take a moment.".to_owned()
            },
            ServerMode::Local =>
                "Scan the QR code below or use the pairing URL to connect from your mobile device on the same network.".to_owned(),
        };
        let mut out: Vec<Section> = Vec::new();
        out.push(
            Section {
                label: "Server Address".to_owned(),
                value: shown_address(s.local_addr.ip.as_str(), s.local_addr.port),
                copies: None,
            },
        );
        if let Some(url) = public_address(s) {
            out.push(
                Section {
                    label: "Public URL (Internet)".to_owned(),
                    value: url.clone(),
                    copies: Some(url),
                },
            );
        }
        out.push(
            Section {
                label: local_label,
                value: s.pairing_url.clone(),
                copies: Some(s.pairing_url.clone()),
            },
        );
        out.push(
            Section {
                label: "Authentication Token".to_owned(),
                value: s.auth_token.to_text(),
                copies: None,
            },
        );
        assert(section_views(out@) =~= sections(s@));
        Dialog { headline, intro, sections: out, has_picture: self.qr_image.is_some() }
    }
}

fn shown_address(ip: &str, port: u16) -> (r: String)
    ensures
        r@ == address_text(ip@, port),
{
    if text::text_holds(ip, ":") {
        let mut out = "[".to_owned();
        out.append(ip);
        out.append("]:");
        out.append(text::decimal_text(port as u128).as_str());
        out
    } else {
        let mut out = ip.to_owned();
        out.append(":");
        out.append(text::decimal_text(port as u128).as_str());
        out
    }
}

// ---------------------------------------------------------------------------
// Laws
// ---------------------------------------------------------------------------

/// Exchanging red and blue twice changes nothing.
pub proof fn exchanging_twice_changes_nothing(pixels: Seq<u8>)
    ensures
        exchanged(exchanged(pixels)) == pixels,
{
    assert(exchanged(exchanged(pixels)) =~= pixels);
}

} // verus!
